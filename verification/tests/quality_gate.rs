use cli_push_runner::config::quality_gate::{GroupConfig, QualityGateConfig};
use cli_push_runner::stages::quality_gate::{effective_groups, run_quality_gate};

/// Runs each group as a shell would run these fixtures' commands:
/// `exit 1` fails, every other command (`echo ...`) passes.
fn run_groups(groups: Vec<&GroupConfig>, _timeout: u64, _parallel: bool) -> Vec<bool> {
    groups
        .iter()
        .map(|g| g.commands.iter().all(|c| c.as_str() != "exit 1"))
        .collect()
}
fn make_group(name: &str, commands: Vec<&str>) -> GroupConfig {
    GroupConfig {
        name: name.to_string(),
        pre: None,
        commands: commands.into_iter().map(|s| s.to_string()).collect(),
    }
}



#[test]
fn run_quality_gate_sequential_mixed_returns_false() {
    let config = QualityGateConfig {
        parallel: Some(false),
        step_timeout: Some(10),
        groups: vec![
            make_group("pass", vec!["echo ok"]),
            make_group("fail", vec!["exit 1"]),
        ],
    };
    assert!(
        !run_quality_gate(&config, &[], run_groups),
        "mixed pass/fail should return false overall"
    );
}

/// T11: docs-only routing が失敗 group を skip 指定すると gate が PASS になる。
/// 逆に言えば skip リストが効いていることの証跡 (skip なしなら false)。
#[test]
fn run_quality_gate_skips_named_group() {
    let config = QualityGateConfig {
        parallel: Some(false),
        step_timeout: Some(10),
        groups: vec![
            make_group("keep", vec!["echo ok"]),
            make_group("rust-lint-test", vec!["exit 1"]),
        ],
    };
    assert!(
        !run_quality_gate(&config, &[], run_groups),
        "skip なしなら失敗 group が gate を落とす (対照)"
    );
    assert!(
        run_quality_gate(&config, &["rust-lint-test".to_string()], run_groups),
        "失敗 group を skip すれば残りが PASS"
    );
}

/// T11: skip 対象が実 group に 1 件も無い場合も、残り group は普通に評価される
/// (typo 保護は warning のみで、gate 自体は骨抜きにしない)。
#[test]
fn effective_groups_retains_all_when_skip_unmatched() {
    let groups = vec![make_group("a", vec!["echo"]), make_group("b", vec!["echo"])];
    let skip = vec!["nonexistent".to_string()];
    let retained = effective_groups(&groups, &skip);
    assert_eq!(retained.len(), 2, "存在しない skip 名は誰も除外しない");
}

#[test]
fn effective_groups_empty_skip_returns_all() {
    let groups = vec![make_group("a", vec!["echo"])];
    let retained = effective_groups(&groups, &[]);
    assert_eq!(retained.len(), 1);
}

/// fail-closed (ADR-043): skip 指定が全 group を覆う誤設定でも、gate を素通り
/// (0 group 実行で `.all()` が空 vacuous pass) させず全 group を実行する。
/// docs-only routing が JS 系まで skip 名に含める設定ミスに対する gate 骨抜き防止。
#[test]
fn effective_groups_skip_all_falls_back_to_full_run() {
    let groups = vec![make_group("a", vec!["echo"]), make_group("b", vec!["echo"])];
    let skip = vec!["a".to_string(), "b".to_string()];
    let retained = effective_groups(&groups, &skip);
    assert_eq!(
        retained.len(),
        2,
        "全 group を skip する指定は無視して全実行 (0 group で vacuous pass させない)"
    );
}

#[test]
fn run_quality_gate_skip_all_does_not_vacuously_pass() {
    let config = QualityGateConfig {
        parallel: Some(false),
        step_timeout: Some(10),
        groups: vec![
            make_group("keep", vec!["echo ok"]),
            make_group("rust-lint-test", vec!["exit 1"]),
        ],
    };
    assert!(
        !run_quality_gate(
            &config,
            &["keep".to_string(), "rust-lint-test".to_string()],
            run_groups
        ),
        "全 group skip 指定でも失敗 group は実行され gate は落ちる (fail-closed)"
    );
}
