//! The smaller public helpers, each on concrete values.
use cli_push_runner::config::quality_gate::GroupConfig;
use cli_push_runner::stages::lint_screen::diff_filter::{
    chunk_has_excluded_extension, is_diff_metadata_line, split_into_file_diffs,
};
use cli_push_runner::stages::open_questions_gate::detect::{field_value, is_heading, parse_heading};
use cli_push_runner::stages::pr_size_check::{pr_size_level, PrSizeLevel};
use cli_push_runner::stages::quality_gate::{run_group, unknown_skip_groups};
use cli_push_runner::stages::takt_verdict::detect::{fence_regions, strip_document_fence};

fn strings(v: &[&str]) -> Vec<String> {
    v.iter().map(|s| s.to_string()).collect()
}

fn group(name: &str, pre: Option<&str>, commands: &[&str]) -> GroupConfig {
    GroupConfig {
        name: name.to_string(),
        pre: pre.map(str::to_string),
        commands: strings(commands),
    }
}

#[test]
fn unknown_skip_names_are_listed() {
    let groups = vec![group("test", None, &["t"]), group("lint", None, &["l"])];
    assert_eq!(
        unknown_skip_groups(&groups, &strings(&["lint", "typo", "docs"])),
        strings(&["typo", "docs"])
    );
    assert!(unknown_skip_groups(&groups, &strings(&["test"])).is_empty());
}

#[test]
fn a_group_stops_at_its_first_failing_step() {
    let ran = std::cell::RefCell::new(Vec::new());
    let step = |cmd: &str, t: u64| {
        ran.borrow_mut().push((cmd.to_string(), t));
        (cmd != "fail", String::new())
    };
    assert!(!run_group(&group("g", Some("setup"), &["ok", "fail", "never"]), 7, &step));
    assert_eq!(
        *ran.borrow(),
        vec![
            ("setup".to_string(), 7),
            ("ok".to_string(), 7),
            ("fail".to_string(), 7)
        ]
    );
    ran.borrow_mut().clear();
    assert!(run_group(&group("g", None, &["a", "b"]), 3, &step));
    assert_eq!(ran.borrow().len(), 2);
}

#[test]
fn a_failing_pre_command_skips_the_commands() {
    let step = |cmd: &str, _: u64| (cmd != "pre", String::new());
    assert!(!run_group(&group("g", Some("pre"), &["never"]), 1, &step));
}

#[test]
fn size_levels_follow_the_thresholds() {
    assert!(matches!(pr_size_level(100, 500, 1000), PrSizeLevel::Within));
    assert!(matches!(pr_size_level(500, 500, 1000), PrSizeLevel::Within));
    assert!(matches!(pr_size_level(501, 500, 1000), PrSizeLevel::Warning));
    assert!(matches!(pr_size_level(1000, 500, 1000), PrSizeLevel::Warning));
    assert!(matches!(pr_size_level(1001, 500, 1000), PrSizeLevel::Blocking));
    assert!(matches!(pr_size_level(50, 100, 10), PrSizeLevel::Blocking));
}

#[test]
fn a_diff_splits_into_file_diffs_losslessly() {
    let diff = "diff --git a/a.rs b/a.rs\n+x\ndiff --git a/b.md b/b.md\n+y\n";
    let parts = split_into_file_diffs(diff);
    assert_eq!(
        parts,
        strings(&["diff --git a/a.rs b/a.rs\n+x\n", "diff --git a/b.md b/b.md\n+y\n"])
    );
    assert_eq!(parts.concat(), diff);
    assert!(split_into_file_diffs("not a diff").is_empty());
}

#[test]
fn excluded_chunks_are_told_by_their_path() {
    assert!(chunk_has_excluded_extension(
        "diff --git a/README.md b/README.md\n--- a/README.md\n+++ b/README.md\n+x\n"
    ));
    assert!(chunk_has_excluded_extension(
        "diff --git a/docs/A.MARKDOWN b/docs/A.MARKDOWN\n--- a/docs/A.MARKDOWN\n+++ b/docs/A.MARKDOWN\n"
    ));
    assert!(!chunk_has_excluded_extension(
        "diff --git a/src/md.rs b/src/md.rs\n--- a/src/md.rs\n+++ b/src/md.rs\n"
    ));
    assert!(!chunk_has_excluded_extension(
        "diff --git a/README.md b/README.md\n+x\n"
    ));
}

#[test]
fn metadata_lines_are_recognized() {
    assert!(is_diff_metadata_line("index abc..def 100644"));
    assert!(is_diff_metadata_line("similarity index 90%"));
    assert!(is_diff_metadata_line("rename from a.rs"));
    assert!(!is_diff_metadata_line("+index abc"));
    assert!(!is_diff_metadata_line("@@ -1 +1 @@"));
}

#[test]
fn question_headings_and_fields_are_read() {
    assert!(is_heading("## Q-1: what?"));
    assert!(is_heading("  ### Notes"));
    assert!(!is_heading("#hashtag"));
    let q = parse_heading("## Q-12 : Which base? ").expect("a question heading");
    assert_eq!(q.id, "12");
    assert_eq!(q.question, "Which base?");
    assert!(parse_heading("## Q- : blank id").is_none());
    assert!(parse_heading("## Notes").is_none());
    assert_eq!(
        field_value("- 関連: src/a.rs ", "関連:"),
        Some("src/a.rs".to_string())
    );
    assert_eq!(field_value("> 仮定:   ", "仮定:"), None);
    assert_eq!(field_value("text", "関連:"), None);
}

#[test]
fn fence_regions_close_only_on_enough_backticks() {
    let lines = strings(&["a", "```rust", "x", "```", "b", "````", "```", "````", "c"]);
    assert_eq!(fence_regions(&lines), vec![(1, 3), (5, 7)]);
    let open = strings(&["```", "x"]);
    assert_eq!(fence_regions(&open), vec![(0, 2)]);
}

#[test]
fn a_document_wrapped_in_one_fence_is_unwrapped() {
    let wrapped = strings(&["", "```markdown", "# Review", "## Result: APPROVE", "```", ""]);
    assert_eq!(
        strip_document_fence(&wrapped),
        strings(&["# Review", "## Result: APPROVE"])
    );
    let plain = strings(&["# Review", "```", "x", "```", "## Result: REJECT"]);
    assert_eq!(strip_document_fence(&plain), plain);
}
