use cli_push_runner::config::docs_only_routing::DocsOnlyRoutingConfig;
use cli_push_runner::config::lint_screen::{
    parse_lint_screen_env, LintScreenConfig, LintScreenEnvOverride,
};
use cli_push_runner::config::pr_size_check::PrSizeCheckConfig;
use cli_push_runner::config::quality_gate::{GroupConfig, QualityGateConfig};
use cli_push_runner::config::takt::TaktConfig;
use cli_push_runner::config::testability_gate::{
    validate_testability_gate_mode, TestabilityGateConfig,
};
use cli_push_runner::config::{
    apply_lint_screen_env_override, remote_ref_exists_cached, resolve_takt_workflow,
    validate_config, Config, DiffConfig, PrePushReviewConfig, PushConfig, RemoteRefCache,
    DEFAULT_BASE_BRANCH, DIFF_PR_RANGE_PLACEHOLDER,
};

/// A remote tracking ref never resolves here.
fn no_remote(_revset: &str) -> bool {
    false
}

fn group(name: &str, commands: &[&str]) -> GroupConfig {
    GroupConfig {
        name: name.to_string(),
        pre: None,
        commands: commands.iter().map(|c| c.to_string()).collect(),
    }
}

/// The configuration with a quality group, `[takt]`, `[push]` and a `[diff]`
/// command over the PR range.
fn minimal() -> Config {
    Config {
        default_branch: None,
        quality_gate: QualityGateConfig {
            parallel: None,
            step_timeout: None,
            groups: vec![group("t", &["echo ok"])],
        },
        diff: Some(DiffConfig {
            command: "jj diff --git -r {{PR_RANGE}}".to_string(),
            output_path: ".takt/d.txt".to_string(),
            timeout: None,
            default_branch: None,
        }),
        lint_screen: None,
        takt: TaktConfig {
            workflow: "w".to_string(),
            task: "t".to_string(),
            extra_args: None,
        },
        push: PushConfig {
            command: "echo push".to_string(),
            timeout: None,
        },
        scratch_file_warning: None,
        ledger_completion: None,
        pr_size_check: None,
        pre_push_review: None,
        docs_only_routing: None,
        post_takt_regate: None,
        testability_gate: None,
    }
}

fn with_top(mut c: Config, branch: &str) -> Config {
    c.default_branch = Some(branch.to_string());
    c
}

fn with_pr_size_branch(mut c: Config, branch: &str) -> Config {
    c.pr_size_check = Some(PrSizeCheckConfig {
        enabled: Some(true),
        default_branch: Some(branch.to_string()),
        warning_threshold: None,
        block_threshold: None,
    });
    c
}

fn with_docs_only_branch(mut c: Config, branch: &str) -> Config {
    c.docs_only_routing = Some(DocsOnlyRoutingConfig {
        enabled: Some(true),
        default_branch: Some(branch.to_string()),
        skip_groups: None,
    });
    c
}

fn diff_range_no_remote(config: &Config) -> String {
    config.diff_pr_range(&no_remote)
}

fn docs_only_range_no_remote(config: &Config) -> String {
    config.docs_only_pr_range(&no_remote)
}

fn pr_size_range_no_remote(config: &Config) -> String {
    config.pr_size_pr_range(&no_remote)
}

#[test]
fn base_prefers_remote_tracking_ref_when_it_resolves() {
    let config = minimal();
    assert_eq!(
        config.pr_range_revset_with(None, |r: &str| r == "master@origin"),
        "master@origin..@",
        "ローカル master の遅延で他 PR のマージ分を合算しないよう remote を優先する"
    );
}

#[test]
fn base_falls_back_to_local_name_when_remote_ref_missing() {
    let config = minimal();
    assert_eq!(
        config.pr_range_revset_with(None, no_remote),
        "master..@",
        "remote が無い環境では従来どおりローカル bookmark 名で解決する"
    );
}

#[test]
fn base_does_not_double_qualify_remote_ref() {
    let config = with_top(minimal(), "master@origin");
    assert_eq!(config.pr_range_revset_with(None, |_: &str| true), "master@origin..@");
}

#[test]
fn all_stages_share_the_same_range_by_default() {
    let config = minimal();
    let expected = format!("{}..@", DEFAULT_BASE_BRANCH);
    assert_eq!(diff_range_no_remote(&config), expected);
    assert_eq!(docs_only_range_no_remote(&config), expected);
    assert_eq!(pr_size_range_no_remote(&config), expected);
}

#[test]
fn top_level_default_branch_applies_to_all_stages() {
    let config = with_top(minimal(), "main");
    assert_eq!(diff_range_no_remote(&config), "main..@");
    assert_eq!(docs_only_range_no_remote(&config), "main..@");
    assert_eq!(pr_size_range_no_remote(&config), "main..@");
}

#[test]
fn section_override_wins_over_top_level() {
    let config = with_pr_size_branch(with_top(minimal(), "main"), "develop");
    assert_eq!(pr_size_range_no_remote(&config), "develop..@");
    assert_eq!(
        diff_range_no_remote(&config),
        "main..@",
        "override は指定した section にのみ効く"
    );
}

#[test]
fn blank_override_falls_back_instead_of_producing_empty_range() {
    let config = with_pr_size_branch(with_top(minimal(), "main"), "   ");
    assert_eq!(
        pr_size_range_no_remote(&config),
        "main..@",
        "空白のみの override は未設定として扱う (`..@` を作らない)"
    );
}

#[test]
fn blank_top_level_falls_back_to_default() {
    let config = with_top(minimal(), "");
    assert_eq!(
        diff_range_no_remote(&config),
        format!("{}..@", DEFAULT_BASE_BRANCH)
    );
}

#[test]
fn validate_config_rejects_disagreeing_section_override() {
    let config = with_pr_size_branch(with_top(minimal(), "main"), "develop");
    let err = validate_config(&config, &no_remote).expect_err("disagreeing ranges must fail-closed");
    assert!(err.contains("PR 範囲が stage 間で一致しません"), "{err}");
}

#[test]
fn validate_config_accepts_matching_section_overrides() {
    let config = with_docs_only_branch(with_pr_size_branch(with_top(minimal(), "main"), "main"), "main");
    assert!(validate_config(&config, &no_remote).is_ok());
}

#[test]
fn absent_top_level_inherits_agreed_section_overrides() {
    let config = with_docs_only_branch(with_pr_size_branch(minimal(), "main"), "main");
    assert_eq!(
        diff_range_no_remote(&config),
        "main..@",
        "override 未設定の [diff] も全一致値を共有する"
    );
    assert_eq!(docs_only_range_no_remote(&config), "main..@");
    assert_eq!(pr_size_range_no_remote(&config), "main..@");
    assert!(
        validate_config(&config, &no_remote).is_ok(),
        "一致する section override のみ (top-level 不在) の config は通す"
    );
}

#[test]
fn absent_top_level_with_disagreeing_section_overrides_still_fails_closed() {
    let config = with_docs_only_branch(with_pr_size_branch(minimal(), "main"), "develop");
    assert!(
        validate_config(&config, &no_remote).is_err(),
        "食い違う section override は genuine な不一致として reject"
    );
}

#[test]
fn validate_config_rejects_diff_command_without_pr_range_placeholder() {
    let mut config = minimal();
    config.diff = Some(DiffConfig {
        command: "jj diff -r @".to_string(),
        output_path: ".takt/d.txt".to_string(),
        timeout: None,
        default_branch: None,
    });
    let err = validate_config(&config, &no_remote)
        .expect_err("{{PR_RANGE}} を欠く [diff] command は fail-closed で拒否");
    assert!(
        err.contains(DIFF_PR_RANGE_PLACEHOLDER),
        "診断に placeholder 名を含めること: {err}"
    );
    assert!(err.contains("\"jj diff -r @\""), "{err}");
}

#[test]
fn validate_config_accepts_diff_command_with_pr_range_placeholder() {
    assert!(validate_config(&minimal(), &no_remote).is_ok());
}

fn bare_config(groups: Vec<GroupConfig>) -> Config {
    let mut c = minimal();
    c.diff = None;
    c.quality_gate.groups = groups;
    c.push.command = "echo".to_string();
    c
}

#[test]
fn tests_validate_rejects_empty_groups() {
    let result = validate_config(&bare_config(vec![]), &no_remote);
    assert!(result.is_err());
    assert!(result.unwrap_err().contains("groups が空"));
}

#[test]
fn tests_validate_rejects_empty_commands() {
    let result = validate_config(&bare_config(vec![group("empty", &[])]), &no_remote);
    assert!(result.is_err());
    assert!(result.unwrap_err().contains("'empty'"));
}

#[test]
fn config_validate_rejects_empty_groups() {
    let result = validate_config(&bare_config(vec![]), &no_remote);
    assert!(result.is_err());
    assert!(result.unwrap_err().contains("groups が空"));
}

#[test]
fn config_validate_rejects_empty_commands() {
    let result = validate_config(&bare_config(vec![group("empty", &[])]), &no_remote);
    assert!(result.is_err());
    assert!(result.unwrap_err().contains("'empty'"));
}

fn config_with_optional_pre_push(pre_push: Option<PrePushReviewConfig>) -> Config {
    let mut c = minimal();
    c.takt.workflow = "pre-push-review".to_string();
    c.takt.task = "pre-push review".to_string();
    c.pre_push_review = pre_push;
    c
}

#[test]
fn resolve_workflow_base_when_section_absent() {
    let config = config_with_optional_pre_push(None);
    assert_eq!(resolve_takt_workflow(&config), "pre-push-review");
}

#[test]
fn resolve_workflow_base_when_refute_disabled() {
    let config = config_with_optional_pre_push(Some(PrePushReviewConfig {
        refute_enabled: Some(false),
        refute_workflow: Some("pre-push-review-refute".to_string()),
    }));
    assert_eq!(resolve_takt_workflow(&config), "pre-push-review");
}

#[test]
fn resolve_workflow_refute_when_enabled() {
    let config = config_with_optional_pre_push(Some(PrePushReviewConfig {
        refute_enabled: Some(true),
        refute_workflow: Some("pre-push-review-refute".to_string()),
    }));
    assert_eq!(resolve_takt_workflow(&config), "pre-push-review-refute");
}

#[test]
fn resolve_workflow_base_when_enabled_but_no_refute_workflow() {
    let config = config_with_optional_pre_push(Some(PrePushReviewConfig {
        refute_enabled: Some(true),
        refute_workflow: None,
    }));
    assert_eq!(resolve_takt_workflow(&config), "pre-push-review");
}

#[test]
fn remote_ref_exists_memoizes_per_revset() {
    let mut cache = RemoteRefCache::new();
    let mut calls = 0;
    let first = remote_ref_exists_cached(&mut cache, "test@origin", || {
        calls += 1;
        true
    });
    let second = remote_ref_exists_cached(&mut cache, "test@origin", || {
        panic!("a recorded revset is not resolved again")
    });
    assert!(first && second, "解決結果は一貫すること");
    assert_eq!(calls, 1);
}

#[test]
fn remote_ref_exists_cache_is_keyed_by_revset() {
    let mut cache = RemoteRefCache::new();
    let hit = remote_ref_exists_cached(&mut cache, "resolvable@origin", || true);
    let miss = remote_ref_exists_cached(&mut cache, "missing@origin", || false);
    assert!(hit, "解決できる revset は true");
    assert!(!miss, "解決できない revset は false (ローカル名へフォールバック)");
}

fn check_env_unset() {
    assert_eq!(parse_lint_screen_env(None), LintScreenEnvOverride::RespectToml);
}

fn check_env_force_enable() {
    for value in ["true", "TRUE", "1", "yes", "YES", "on", "On", " true ", "\tyes\n"] {
        assert_eq!(
            parse_lint_screen_env(Some(value)),
            LintScreenEnvOverride::ForceEnable,
            "value '{}' should map to ForceEnable",
            value
        );
    }
}

fn check_env_respect_toml() {
    for value in ["false", "FALSE", "0", "no", "NO", "off", "", "   "] {
        assert_eq!(
            parse_lint_screen_env(Some(value)),
            LintScreenEnvOverride::RespectToml,
            "value '{}' should map to RespectToml",
            value
        );
    }
}

fn check_env_invalid() {
    for value in ["maybe", "2", "enable", "disabled", "yes please"] {
        assert_eq!(
            parse_lint_screen_env(Some(value)),
            LintScreenEnvOverride::InvalidValue,
            "value '{}' should map to InvalidValue",
            value
        );
    }
}

#[test]
fn config_parse_lint_screen_env_unset_yields_respect_toml() {
    check_env_unset();
}

#[test]
fn config_parse_lint_screen_env_force_enable_variants() {
    check_env_force_enable();
}

#[test]
fn config_parse_lint_screen_env_respect_toml_variants() {
    check_env_respect_toml();
}

#[test]
fn config_parse_lint_screen_env_invalid_value() {
    check_env_invalid();
}

#[test]
fn lint_screen_parse_lint_screen_env_unset_yields_respect_toml() {
    check_env_unset();
}

#[test]
fn lint_screen_parse_lint_screen_env_force_enable_variants() {
    check_env_force_enable();
}

#[test]
fn lint_screen_parse_lint_screen_env_respect_toml_variants() {
    check_env_respect_toml();
}

#[test]
fn lint_screen_parse_lint_screen_env_invalid_value() {
    check_env_invalid();
}

fn make_config_with_lint_screen(enabled: bool) -> Config {
    let mut c = minimal();
    c.lint_screen = Some(LintScreenConfig {
        enabled,
        exe_path: None,
        model: None,
        endpoint: None,
        timeout_secs: None,
        max_diff_lines: None,
        output_path: None,
    });
    c
}

#[test]
fn lint_screen_apply_env_override_force_enable_on_absent_section_creates_lint_screen_config() {
    let mut config = minimal();
    apply_lint_screen_env_override(&mut config, Some("true".to_string()));
    let lint = config.lint_screen.expect("env=true should construct a default section");
    assert!(lint.enabled);
    assert!(lint.exe_path.is_none());
    assert!(lint.model.is_none());
}

#[test]
fn lint_screen_apply_env_override_force_enable_overwrites_toml_false() {
    let mut config = make_config_with_lint_screen(false);
    apply_lint_screen_env_override(&mut config, Some("1".to_string()));
    assert!(config.lint_screen.unwrap().enabled);
}

#[test]
fn lint_screen_apply_env_override_respect_toml_keeps_toml_enabled_true() {
    let mut config = make_config_with_lint_screen(true);
    apply_lint_screen_env_override(&mut config, Some("false".to_string()));
    assert!(config.lint_screen.unwrap().enabled);
}

#[test]
fn lint_screen_apply_env_override_respect_toml_keeps_toml_enabled_false() {
    let mut config = make_config_with_lint_screen(false);
    apply_lint_screen_env_override(&mut config, Some("".to_string()));
    assert!(!config.lint_screen.unwrap().enabled);
}

#[test]
fn lint_screen_apply_env_override_unset_keeps_toml_section_absent() {
    let mut config = minimal();
    apply_lint_screen_env_override(&mut config, None);
    assert!(config.lint_screen.is_none());
}

#[test]
fn lint_screen_apply_env_override_invalid_value_respects_toml() {
    let mut config = make_config_with_lint_screen(false);
    let o = apply_lint_screen_env_override(&mut config, Some("maybe".to_string()));
    assert_eq!(o, LintScreenEnvOverride::InvalidValue);
    assert!(!config.lint_screen.unwrap().enabled);
}

#[test]
fn unknown_mode_is_a_config_error() {
    let config = TestabilityGateConfig {
        enabled: Some(true),
        mode: Some("denny".to_string()),
    };
    let err = validate_testability_gate_mode(Some(&config)).unwrap_err();
    assert!(err.contains("denny"), "{err}");
    assert!(err.contains("warning"), "{err}");
}

#[test]
fn known_modes_and_absent_mode_are_accepted() {
    for mode in ["warning", "deny"] {
        let config = TestabilityGateConfig {
            enabled: Some(true),
            mode: Some(mode.to_string()),
        };
        assert!(validate_testability_gate_mode(Some(&config)).is_ok(), "{mode}");
    }
    let no_mode = TestabilityGateConfig {
        enabled: Some(true),
        mode: None,
    };
    assert!(validate_testability_gate_mode(Some(&no_mode)).is_ok());
    assert!(validate_testability_gate_mode(None).is_ok());
}

#[test]
fn docs_only_routing_defaults() {
    let c = DocsOnlyRoutingConfig {
        enabled: Some(true),
        default_branch: Some("  ".to_string()),
        skip_groups: Some(vec![]),
    };
    assert_eq!(c.effective_default_branch(), "master");
    assert_eq!(c.effective_skip_groups(), vec!["rust-lint-test".to_string()]);
    let d = DocsOnlyRoutingConfig {
        enabled: Some(true),
        default_branch: Some(" main ".to_string()),
        skip_groups: Some(vec!["a".to_string(), "b".to_string()]),
    };
    assert_eq!(d.effective_default_branch(), "main");
    assert_eq!(d.effective_skip_groups(), vec!["a".to_string(), "b".to_string()]);
}
