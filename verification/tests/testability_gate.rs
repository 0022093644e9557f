use cli_push_runner::config::testability_gate::TestabilityGateConfig;
use cli_push_runner::stages::testability_gate::detect::{
    Ex, FnShape, ItemModel, LocalItem, Pt, ReturnShape,
};
use cli_push_runner::stages::testability_gate::{
    baseline, changed_paths, is_baselined, is_deny, is_scan_target, rename_target, report,
    run_testability_gate, scan_changed_files, scan_incomplete, Firing, Violation, BASELINE_FROZEN_LEN,
    report_firings, scan_incomplete_firing,
};

/// 発火する形。
const BAD: &str = r#"
        fn is_clean() -> bool {
            let (ok, out) = run_cmd_direct("jj", &["diff"], &[], 30);
            if !ok { return true; }
            out.trim().is_empty()
        }
    "#;

/// 発火しない形 (解釈を純関数へ出したもの)。
const GOOD: &str = r#"
        fn is_clean() -> bool {
            interpret(query())
        }
        fn query() -> Result<String, String> {
            let (ok, out) = run_cmd_direct("jj", &["diff"], &[], 30);
            if ok { Ok(out) } else { Err(out) }
        }
        fn interpret(raw: Result<String, String>) -> bool {
            matches!(raw, Ok(s) if s.trim().is_empty())
        }
    "#;

/// baseline 済みの実関数と同じ形。
const BASELINED_SHAPE: &str = r#"
        fn diff_is_empty() -> bool {
            let (ok, out) = run_cmd_direct("jj", &["diff"], &[], 30);
            if !ok { return true; }
            out.trim().is_empty()
        }
    "#;

const BROKEN: &str = "fn broken( {";

fn path(name: &str) -> Ex {
    Ex::Path(vec![name.to_string()], Some(name.to_string()))
}

fn call(f: &str, args: Vec<Ex>) -> Ex {
    Ex::Call(Box::new(path(f)), args)
}

fn method(recv: Ex, name: &str) -> Ex {
    Ex::MethodCall(Box::new(recv), name.to_string(), vec![])
}

fn bool_fn(name: &str, line: usize, called: &[&str], methods: &[&str], locals: Vec<LocalItem>, decisions: Vec<Ex>) -> FnShape {
    FnShape {
        name: name.to_string(),
        line,
        returns: ReturnShape {
            path_last: Some("bool".to_string()),
            first_arg_is_bool: false,
        },
        called_paths: called.iter().map(|c| vec![c.to_string()]).collect(),
        method_names: methods.iter().map(|m| m.to_string()).collect(),
        locals,
        decisions,
    }
}

/// `let (ok, out) = run_cmd_direct("jj", &["diff"], &[], 30);`
fn io_binding() -> LocalItem {
    LocalItem {
        pat: Pt::Group(vec![
            Pt::Ident("ok".to_string(), None),
            Pt::Ident("out".to_string(), None),
        ]),
        init: Some(call(
            "run_cmd_direct",
            vec![
                Ex::Other,
                Ex::Wrapped(Box::new(Ex::Other)),
                Ex::Wrapped(Box::new(Ex::Other)),
                Ex::Other,
            ],
        )),
    }
}

/// The inline-interpretation shape (`BAD`, `BASELINED_SHAPE`) for `name`.
fn inline_shape(name: &str) -> FnShape {
    bool_fn(
        name,
        2,
        &["run_cmd_direct"],
        &["trim", "is_empty"],
        vec![io_binding()],
        vec![method(method(path("out"), "trim"), "is_empty"), Ex::Other],
    )
}

/// The functions of each source used here, as a parse gives them.
fn model_of(src: &str) -> Result<Vec<FnShape>, String> {
    if src == BAD {
        Ok(vec![inline_shape("is_clean")])
    } else if src == BASELINED_SHAPE {
        Ok(vec![inline_shape("diff_is_empty")])
    } else if src == GOOD {
        let mut query = bool_fn(
            "query",
            5,
            &["run_cmd_direct", "Ok", "Err"],
            &[],
            vec![io_binding()],
            vec![Ex::If(
                None,
                Some(Box::new(call("Ok", vec![path("out")]))),
                Some(Box::new(Ex::Block(Some(Box::new(call("Err", vec![path("out")])))))),
            )],
        );
        query.returns = ReturnShape {
            path_last: Some("Result".to_string()),
            first_arg_is_bool: false,
        };
        Ok(vec![
            bool_fn(
                "is_clean",
                2,
                &["interpret", "query"],
                &[],
                vec![],
                vec![call("interpret", vec![call("query", vec![])])],
            ),
            query,
            bool_fn("interpret", 9, &[], &[], vec![], vec![Ex::Other]),
        ])
    } else if src == BROKEN {
        Err("Rust ソースを parse できません".to_string())
    } else {
        Ok(vec![])
    }
}

/// The model of a source's items.
fn scanner(src: &str) -> Result<Vec<ItemModel>, String> {
    model_of(src).map(|fns| fns.into_iter().map(ItemModel::Fn).collect())
}

fn scan_one(path: &str, src: &str) -> (Vec<Violation>, Vec<String>) {
    let owned_path = path.to_string();
    let owned_src = src.to_string();
    let read = move |p: &str| {
        if p == owned_path {
            Some(owned_src.clone())
        } else {
            None
        }
    };
    scan_changed_files(&[path.to_string()], &read, &scanner)
}

fn config_with(mode: Option<&str>) -> TestabilityGateConfig {
    TestabilityGateConfig {
        enabled: Some(true),
        mode: mode.map(str::to_string),
    }
}

fn one_violation() -> Vec<Violation> {
    vec![Violation {
        file: "src/new.rs".to_string(),
        function: "is_clean".to_string(),
        line: 2,
    }]
}

#[test]
fn scan_targets_exclude_test_code() {
    assert!(is_scan_target("src/cli-push-runner/src/stages/push.rs"));
    assert!(!is_scan_target(
        "src/cli-push-runner/src/stages/bookmark_check/tests.rs"
    ));
    assert!(!is_scan_target("src/lib-ledger/tests/parity.rs"));
    assert!(!is_scan_target("README.md"));
}

/// リポジトリ直下のテストパスも除外する。
#[test]
fn root_level_test_paths_are_excluded() {
    assert!(!is_scan_target("tests/foo.rs"));
    assert!(!is_scan_target("tests.rs"));
    assert!(!is_scan_target("target/debug/build/foo.rs"));
    assert!(is_scan_target("src/tests_helper.rs"));
}

/// 走査できなかったファイルがあれば、違反 0 でも成功扱いにしない。
/// warning では push を通すが、deny では止める。
#[test]
fn unscannable_files_block_in_deny_mode() {
    let (violations, skipped) = scan_one("src/broken.rs", BROKEN);
    assert!(violations.is_empty());
    assert_eq!(skipped.len(), 1);
    assert!(scan_incomplete(
        Some(&config_with(None)),
        "files-unscannable",
        "broken"
    ));
    assert!(!scan_incomplete(
        Some(&config_with(Some("deny"))),
        "files-unscannable",
        "broken"
    ));
}

#[test]
fn changed_paths_reads_added_and_modified() {
    let summary = "M src/a.rs\nA src/b.rs\nD src/c.rs\n";
    assert_eq!(
        changed_paths(summary).unwrap(),
        vec!["src/a.rs".to_string(), "src/b.rs".to_string()]
    );
}

/// fail-closed: 解釈できない行を見たら「変更なし」に潰さない。
#[test]
fn changed_paths_rejects_unknown_status() {
    assert!(changed_paths("R src/a.rs -> src/b.rs\n").is_err());
    assert!(changed_paths("M\n").is_err());
    assert!(changed_paths("X src/a.rs\n").is_err());
    assert!(changed_paths("R src/{a => b.rs\n").is_err());
}

/// jj の rename 行 4 形 (区切りは `\`): 括りが先頭 / 中間 / 括り内に区切り / 末尾。
#[test]
fn changed_paths_resolves_real_jj_rename_shapes() {
    let bs = char::from(92u8);
    let summary = [
        format!("R {{.tool => config}}{bs}custom-lint-rules.toml"),
        format!("R src{bs}{{cli-autonomy-gate => lib-autonomy-policy}}{bs}src{bs}decision.rs"),
        format!("R src{bs}{{cli-nightly-task-select{bs}src{bs}ledger => lib-ledger{bs}src}}{bs}screening.rs"),
        format!("R src{bs}{{cli-nightly-task-select{bs}src{bs}ledger.rs => lib-ledger{bs}src{bs}lib.rs}}"),
    ]
    .join("\n");
    assert_eq!(
        changed_paths(&summary).unwrap(),
        vec![
            "config/custom-lint-rules.toml".to_string(),
            "src/lib-autonomy-policy/src/decision.rs".to_string(),
            "src/lib-ledger/src/screening.rs".to_string(),
            "src/lib-ledger/src/lib.rs".to_string(),
        ]
    );
}

/// 片側が空になる形 (`{old => }`) は連結で区切りが重複するので畳む。
#[test]
fn changed_paths_collapses_empty_segments() {
    let bs = char::from(92u8);
    assert_eq!(
        changed_paths(&format!("R src{bs}{{old => }}{bs}f.rs")).unwrap(),
        vec!["src/f.rs".to_string()]
    );
}

/// 実測していない表記は推測で解決せず `Err` に倒す。
#[test]
fn changed_paths_rejects_unmeasured_notations() {
    let bs = char::from(92u8);
    assert!(changed_paths("R old/a.rs => new/a.rs\n").is_err());
    assert!(changed_paths(&format!("C src{bs}{{old => new}}{bs}f.rs")).is_err());
}

/// 移動を 1 件含むだけで PR 全体が未走査になっていた退行を固定する。
#[test]
fn a_rename_no_longer_discards_the_rest_of_the_diff() {
    let bs = char::from(92u8);
    let summary = format!(
        "M src{bs}a.rs\nR {{.tool => config}}{bs}custom-lint-rules.toml\nA src{bs}b.rs\n"
    );
    let paths = changed_paths(&summary).expect("rename を含む diff が解釈できること");
    assert!(
        paths.contains(&format!("src{bs}a.rs")) && paths.contains(&format!("src{bs}b.rs")),
        "rename 行の前後の変更が落ちています: {paths:?}"
    );
}

#[test]
fn a_new_inline_interpretation_is_reported() {
    let (violations, _) = scan_one("src/new.rs", BAD);
    assert_eq!(violations.len(), 1, "{violations:?}");
    assert_eq!(violations[0].function, "is_clean");
}

#[test]
fn the_separated_shape_is_not_reported() {
    assert!(scan_one("src/new.rs", GOOD).0.is_empty());
}

/// 既存分 (baseline) は同じ形でも報告しない。
#[test]
fn baselined_functions_are_suppressed() {
    let (violations, _) = scan_one("src/cli-pr-monitor/src/runner.rs", BASELINED_SHAPE);
    assert!(violations.is_empty(), "{violations:?}");
}

/// 同じ関数名でも別ファイルなら抑止しない (baseline は file+function の組)。
#[test]
fn baseline_does_not_leak_across_files() {
    let (violations, _) = scan_one("src/cli-push-runner/src/other.rs", BASELINED_SHAPE);
    assert_eq!(violations.len(), 1, "{violations:?}");
}

#[test]
fn unparsable_files_are_skipped_not_reported() {
    let (violations, skipped) = scan_one("src/broken.rs", BROKEN);
    assert!(violations.is_empty());
    assert_eq!(skipped.len(), 1, "{skipped:?}");
}

/// ratchet: baseline は増やせない。
#[test]
fn baseline_never_grows() {
    assert!(baseline().len() <= BASELINE_FROZEN_LEN);
}

/// 導入時の既定は warning。push は止めない。
#[test]
fn warning_mode_does_not_block() {
    assert!(report(Some(&config_with(None)), &one_violation()));
}

#[test]
fn deny_mode_blocks() {
    assert!(!report(Some(&config_with(Some("deny"))), &one_violation()));
}

#[test]
fn no_violations_passes_in_any_mode() {
    assert!(report(Some(&config_with(Some("deny"))), &[]));
}

/// 走査が成立しなかったとき、warning 中は push を止めない。
#[test]
fn scan_incomplete_does_not_block_in_warning_mode() {
    assert!(scan_incomplete(Some(&config_with(None)), "diff-failed", "jj 失敗"));
}

/// deny 昇格後は「検査できなかった」を緑に潰さない。
#[test]
fn scan_incomplete_blocks_in_deny_mode() {
    assert!(!scan_incomplete(
        Some(&config_with(Some("deny"))),
        "diff-failed",
        "jj 失敗"
    ));
}

/// mode 未指定は warning 扱い。
#[test]
fn missing_mode_is_warning() {
    assert!(!is_deny(Some(&config_with(None))));
    assert!(!is_deny(None));
    assert!(is_deny(Some(&config_with(Some("deny")))));
}

// ---------------------------------------------------------------------------
// Further cases
// ---------------------------------------------------------------------------

#[test]
fn rename_target_reports_each_malformed_notation() {
    assert_eq!(
        rename_target("a.rs => b.rs").unwrap_err(),
        "rename 表記に括りがありません: \"a.rs => b.rs\""
    );
    assert_eq!(
        rename_target("src/{a.rs").unwrap_err(),
        "rename 表記の括りが閉じていません: \"src/{a.rs\""
    );
    assert_eq!(
        rename_target("src/{a.rs -> b.rs}").unwrap_err(),
        "rename 表記に \" => \" がありません: \"src/{a.rs -> b.rs}\""
    );
    assert_eq!(
        rename_target("{a => }").unwrap_err(),
        "rename 後のパスが空です: \"{a => }\""
    );
    assert_eq!(rename_target("x/{a => b}/y.rs").unwrap(), "x/b/y.rs");
}

#[test]
fn baseline_matches_file_suffix_and_function_together() {
    assert!(is_baselined("repo/src/lib-telemetry/src/lib.rs", "telemetry_enabled"));
    let bs = char::from(92u8);
    assert!(is_baselined(
        &format!("src{bs}lib-telemetry{bs}src{bs}lib.rs"),
        "telemetry_enabled"
    ));
    assert!(!is_baselined("src/lib-telemetry/src/lib.rs", "other"));
    assert!(!is_baselined("src/other.rs", "telemetry_enabled"));
}

#[test]
fn deleted_and_non_rust_paths_are_not_read() {
    let read = |_: &str| -> Option<String> { panic!("nothing should be read") };
    let (violations, skipped) = scan_changed_files(
        &["README.md".to_string(), "tests/a.rs".to_string()],
        &read,
        &scanner,
    );
    assert!(violations.is_empty() && skipped.is_empty());
}

#[test]
fn a_finding_is_reported_with_the_normalized_path() {
    let bs = char::from(92u8);
    let path = format!("src{bs}other.rs");
    let (violations, _) = scan_one(&path, BASELINED_SHAPE);
    assert_eq!(
        violations,
        vec![Violation {
            file: "src/other.rs".to_string(),
            function: "diff_is_empty".to_string(),
            line: 2,
        }]
    );
}

#[test]
fn the_gate_is_off_unless_enabled() {
    let read = |_: &str| -> Option<String> { None };
    let off = TestabilityGateConfig {
        enabled: None,
        mode: Some("deny".to_string()),
    };
    assert!(run_testability_gate(
        Some(&off),
        "main..@",
        false,
        |_| Err("unreachable".to_string()),
        &read,
        &scanner
    ).0);
}

#[test]
fn the_override_lets_the_push_go_on() {
    let read = |_: &str| -> Option<String> { None };
    assert!(run_testability_gate(
        Some(&config_with(Some("deny"))),
        "main..@",
        true,
        |_| Err("jj failed".to_string()),
        &read,
        &scanner
    ).0);
}

#[test]
fn deny_mode_stops_on_a_failed_or_unreadable_summary() {
    let read = |_: &str| -> Option<String> { None };
    let deny = config_with(Some("deny"));
    assert!(!run_testability_gate(
        Some(&deny),
        "main..@",
        false,
        |_| Err("jj failed".to_string()),
        &read,
        &scanner
    ).0);
    assert!(!run_testability_gate(
        Some(&deny),
        "main..@",
        false,
        |_| Ok("X src/a.rs\n".to_string()),
        &read,
        &scanner
    ).0);
    assert!(run_testability_gate(
        Some(&config_with(None)),
        "main..@",
        false,
        |_| Err("jj failed".to_string()),
        &read,
        &scanner
    ).0);
}

#[test]
fn deny_mode_judges_the_scanned_files() {
    let deny = config_with(Some("deny"));
    let read = |p: &str| -> Option<String> {
        match p {
            "src/other.rs" | "src/cli-pr-monitor/src/runner.rs" => {
                Some(BASELINED_SHAPE.to_string())
            }
            "src/broken.rs" => Some(BROKEN.to_string()),
            _ => None,
        }
    };
    let seen = std::cell::RefCell::new(String::new());
    let summary = |range: &str| {
        *seen.borrow_mut() = range.to_string();
        Ok("M src/cli-pr-monitor/src/runner.rs\nD src/gone.rs\n".to_string())
    };
    assert!(run_testability_gate(
        Some(&deny),
        "main..@",
        false,
        summary,
        &read,
        &scanner
    ).0);
    assert_eq!(*seen.borrow(), "main..@");
    assert!(!run_testability_gate(
        Some(&deny),
        "main..@",
        false,
        |_| Ok("M src/other.rs\n".to_string()),
        &read,
        &scanner
    ).0);
    assert!(!run_testability_gate(
        Some(&deny),
        "main..@",
        false,
        |_| Ok("A src/broken.rs\n".to_string()),
        &read,
        &scanner
    ).0);
}

fn firing(id: &str, block: bool, reason: Option<&str>) -> Firing {
    Firing {
        id: id.to_string(),
        block,
        reason: reason.map(str::to_string),
    }
}

#[test]
fn each_violation_and_each_incomplete_scan_fires() {
    let read = |p: &str| -> Option<String> {
        match p {
            "src/bad.rs" => Some(BAD.to_string()),
            _ => None,
        }
    };
    let summary = |_: &str| Ok("M src/bad.rs\nM src/gone.rs\n".to_string());
    let (ok, fired) = run_testability_gate(
        Some(&config_with(Some("deny"))),
        "main..@",
        false,
        summary,
        &read,
        &scanner,
    );
    assert!(!ok);
    assert_eq!(
        fired,
        vec![
            firing("testability_gate:violation", true, None),
            firing("testability_gate:scan-incomplete", true, Some("files-unscannable")),
        ]
    );
    let (ok, fired) = run_testability_gate(
        Some(&config_with(None)),
        "main..@",
        false,
        |_| Ok("M src/bad.rs\n".to_string()),
        &read,
        &scanner,
    );
    assert!(ok);
    assert_eq!(fired, vec![firing("testability_gate:violation", false, None)]);
    let (ok, fired) = run_testability_gate(
        Some(&config_with(None)),
        "main..@",
        false,
        |_| Err("jj failed".to_string()),
        &read,
        &scanner,
    );
    assert!(ok);
    assert_eq!(
        fired,
        vec![firing("testability_gate:scan-incomplete", false, Some("diff-failed"))]
    );
    let (ok, fired) = run_testability_gate(
        Some(&config_with(Some("deny"))),
        "main..@",
        false,
        |_| Ok("X src/bad.rs\n".to_string()),
        &read,
        &scanner,
    );
    assert!(!ok);
    assert_eq!(
        fired,
        vec![firing("testability_gate:scan-incomplete", true, Some("unparsable-status"))]
    );
    let (ok, fired) = run_testability_gate(
        Some(&config_with(Some("deny"))),
        "main..@",
        true,
        |_| Err("jj failed".to_string()),
        &read,
        &scanner,
    );
    assert!(ok && fired.is_empty());
}

#[test]
fn the_firing_helpers_follow_the_mode() {
    let v = Violation {
        file: "src/a.rs".to_string(),
        function: "f".to_string(),
        line: 1,
    };
    assert_eq!(
        report_firings(Some(&config_with(Some("deny"))), &[v]),
        vec![firing("testability_gate:violation", true, None)]
    );
    assert!(report_firings(None, &[]).is_empty());
    assert_eq!(
        scan_incomplete_firing(None, "diff-failed"),
        firing("testability_gate:scan-incomplete", false, Some("diff-failed"))
    );
}
