use cli_push_runner::config::pr_size_check::PrSizeCheckConfig;
use cli_push_runner::stages::pr_size_check::{
    classify_and_log, effective_block_threshold, effective_default_branch,
    effective_warning_threshold, extract_summary_line, parse_override_env, parse_total_lines,
    run_pr_size_check,
};

/// A `jj diff --stat` that must not run: the check is off in these cases.
fn no_diff_stat(_revset: &str) -> Result<String, String> {
    panic!("jj diff --stat must not run when the check is off")
}


#[test]
fn parse_total_lines_typical_jj_output() {
    let line = "3 files changed, 311 insertions(+), 0 deletions(-)";
    assert_eq!(parse_total_lines(line), Some(311));
}

#[test]
fn parse_total_lines_with_both_nonzero() {
    let line = "5 files changed, 100 insertions(+), 50 deletions(-)";
    assert_eq!(parse_total_lines(line), Some(150));
}

#[test]
fn parse_total_lines_empty_diff() {
    let line = "0 files changed, 0 insertions(+), 0 deletions(-)";
    assert_eq!(parse_total_lines(line), Some(0));
}

#[test]
fn parse_total_lines_insertions_only_no_deletions_section() {
    let line = "2 files changed, 50 insertions(+)";
    assert_eq!(parse_total_lines(line), Some(50));
}

#[test]
fn parse_total_lines_deletions_only_no_insertions_section() {
    let line = "2 files changed, 30 deletions(-)";
    assert_eq!(parse_total_lines(line), Some(30));
}

#[test]
fn parse_total_lines_returns_none_for_empty() {
    assert_eq!(parse_total_lines(""), None);
    assert_eq!(parse_total_lines("   "), None);
}

#[test]
fn parse_total_lines_returns_none_for_unrelated_text() {
    assert_eq!(parse_total_lines("Some unrelated jj output"), None);
}

#[test]
fn extract_summary_line_picks_last_non_empty() {
    let stdout = "docs/foo.md | 5 +\nsrc/bar.rs  | 10 ++++\n2 files changed, 13 insertions(+), 2 deletions(-)\n";
    assert_eq!(
        extract_summary_line(stdout),
        "2 files changed, 13 insertions(+), 2 deletions(-)"
    );
}

#[test]
fn extract_summary_line_skips_trailing_blank_lines() {
    let stdout = "summary\n\n\n";
    assert_eq!(extract_summary_line(stdout), "summary");
}

#[test]
fn extract_summary_line_empty_stdout() {
    assert_eq!(extract_summary_line(""), "");
}

fn fixture_revset(default_branch: &str) -> String {
    format!("{}..@", default_branch)
}

#[test]
fn classify_within_warning_threshold_passes() {
    let r = fixture_revset("master");
    assert!(classify_and_log(100, 800, 1500, &r, false));
}

#[test]
fn classify_at_warning_threshold_passes() {
    let r = fixture_revset("master");
    assert!(classify_and_log(800, 800, 1500, &r, false));
}

#[test]
fn classify_above_warning_below_block_passes_with_warning() {
    let r = fixture_revset("master");
    assert!(classify_and_log(900, 800, 1500, &r, false));
}

#[test]
fn classify_at_block_threshold_still_passes() {
    let r = fixture_revset("master");
    assert!(classify_and_log(1500, 800, 1500, &r, false));
}

#[test]
fn classify_above_block_threshold_blocks_without_override() {
    let r = fixture_revset("master");
    assert!(!classify_and_log(1600, 800, 1500, &r, false));
}

#[test]
fn classify_above_block_with_override_passes() {
    let r = fixture_revset("master");
    assert!(
        classify_and_log(1600, 800, 1500, &r, true),
        "override flag should bypass block"
    );
}

#[test]
fn classify_with_alternative_default_branch_works() {
    let r = fixture_revset("main");
    assert!(classify_and_log(100, 800, 1500, &r, false));
}

#[test]
fn effective_default_branch_uses_default_when_none() {
    assert_eq!(effective_default_branch(None), "master");
}

#[test]
fn effective_default_branch_uses_config_when_present() {
    let c = PrSizeCheckConfig {
        enabled: Some(true),
        default_branch: Some("main".to_string()),
        warning_threshold: None,
        block_threshold: None,
    };
    assert_eq!(effective_default_branch(Some(&c)), "main");
}

#[test]
fn effective_default_branch_falls_back_when_blank_string() {
    let c = PrSizeCheckConfig {
        enabled: Some(true),
        default_branch: Some("   ".to_string()),
        warning_threshold: None,
        block_threshold: None,
    };
    assert_eq!(effective_default_branch(Some(&c)), "master");
}

#[test]
fn effective_warning_threshold_default() {
    assert_eq!(effective_warning_threshold(None), 800);
}

#[test]
fn effective_warning_threshold_from_config() {
    let c = PrSizeCheckConfig {
        enabled: Some(true),
        default_branch: None,
        warning_threshold: Some(500),
        block_threshold: None,
    };
    assert_eq!(effective_warning_threshold(Some(&c)), 500);
}

#[test]
fn effective_block_threshold_default() {
    assert_eq!(effective_block_threshold(None), 1500);
}

#[test]
fn effective_block_threshold_from_config() {
    let c = PrSizeCheckConfig {
        enabled: Some(true),
        default_branch: None,
        warning_threshold: None,
        block_threshold: Some(3000),
    };
    assert_eq!(effective_block_threshold(Some(&c)), 3000);
}

#[test]
fn run_pr_size_check_skips_when_section_absent() {
    assert!(run_pr_size_check(None, no_diff_stat, None));
}

#[test]
fn run_pr_size_check_skips_when_enabled_none() {
    let c = PrSizeCheckConfig {
        enabled: None,
        default_branch: None,
        warning_threshold: None,
        block_threshold: None,
    };
    assert!(run_pr_size_check(Some(&c), no_diff_stat, None));
}

#[test]
fn run_pr_size_check_skips_when_enabled_false() {
    let c = PrSizeCheckConfig {
        enabled: Some(false),
        default_branch: None,
        warning_threshold: None,
        block_threshold: None,
    };
    assert!(run_pr_size_check(Some(&c), no_diff_stat, None));
}

#[test]
fn parse_override_env_truthy_variants() {
    for v in ["1", "true", "TRUE", "yes", "on", " true "] {
        assert!(parse_override_env(Some(v)), "'{}' should be truthy", v);
    }
}

#[test]
fn parse_override_env_falsy_variants() {
    for v in ["0", "false", "no", "", "   ", "maybe"] {
        assert!(!parse_override_env(Some(v)), "'{}' should be falsy", v);
    }
}

#[test]
fn pr_size_check_parse_override_env_none_is_false() {
    assert!(!parse_override_env(None));
}

