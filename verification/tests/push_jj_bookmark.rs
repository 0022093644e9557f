use cli_push_runner::stages::push_jj_bookmark::{
    dedup, dispatch_bookmark_advance, parse_bookmark_list_output, parse_bookmarks_from_template,
};

/// The trunk bookmarks of these fixtures.
fn is_trunk_name(name: &str) -> bool {
    name == "main" || name == "master"
}

// --- dedup ---

#[test]
fn dedup_preserves_order_and_removes_duplicates() {
    let input = vec![
        "a".to_string(),
        "b".to_string(),
        "a".to_string(),
        "c".to_string(),
        "b".to_string(),
    ];
    assert_eq!(dedup(input), vec!["a", "b", "c"]);
}

#[test]
fn dedup_empty_returns_empty() {
    assert_eq!(dedup(Vec::new()), Vec::<String>::new());
}

#[test]
fn dedup_single_unchanged() {
    assert_eq!(dedup(vec!["x".to_string()]), vec!["x"]);
}

// --- parse_bookmarks_from_template ---

#[test]
fn parse_bookmarks_empty_string_returns_empty() {
    assert_eq!(parse_bookmarks_from_template(""), Vec::<String>::new());
}

#[test]
fn parse_bookmarks_single_name() {
    assert_eq!(
        parse_bookmarks_from_template("main\n"),
        vec!["main".to_string()]
    );
}

#[test]
fn parse_bookmarks_comma_separated_single_line() {
    assert_eq!(
        parse_bookmarks_from_template("feat/foo,feat/bar,fix/baz\n"),
        vec!["feat/foo", "feat/bar", "fix/baz"]
    );
}

#[test]
fn parse_bookmarks_multi_line_output() {
    let raw = "feat/a,feat/b\nfeat/c\n";
    assert_eq!(
        parse_bookmarks_from_template(raw),
        vec!["feat/a", "feat/b", "feat/c"]
    );
}

#[test]
fn parse_bookmarks_strips_leading_trailing_whitespace() {
    assert_eq!(
        parse_bookmarks_from_template("  main , dev  \n"),
        vec!["main", "dev"]
    );
}

#[test]
fn parse_bookmarks_filters_whitespace_only_entries() {
    assert_eq!(
        parse_bookmarks_from_template(",  ,feat/x,\n"),
        vec!["feat/x".to_string()]
    );
}

#[test]
fn parse_bookmarks_with_duplicates_returned_as_is() {
    assert_eq!(
        parse_bookmarks_from_template("a,a,b\n"),
        vec!["a", "a", "b"]
    );
}

// --- is_trunk_bookmark / TRUNK_BOOKMARKS ---
//
// lib-jj-helpers に集約済 (ADR-024 本採用、PR-C で移設)。
// cli-push-runner 側からは lib_jj_helpers::is_trunk_bookmark を呼び出す。

// --- parse_bookmark_list_output ---

#[test]
fn parse_bookmark_list_typical_output() {
    let output = "\
feat/xyz: abc1234 add feature
  @origin: abc1234 add feature
main: def5678 initial
  @origin: def5678 initial
";
    assert_eq!(parse_bookmark_list_output(output, &is_trunk_name), vec!["feat/xyz"]);
}

#[test]
fn parse_bookmark_list_multiple_feature_bookmarks() {
    let output = "\
feat/a: 111 desc
feat/b: 222 desc
main: 333 desc
";
    assert_eq!(parse_bookmark_list_output(output, &is_trunk_name), vec!["feat/a", "feat/b"]);
}

#[test]
fn parse_bookmark_list_empty_output() {
    assert_eq!(parse_bookmark_list_output("", &is_trunk_name), Vec::<String>::new());
}

#[test]
fn parse_bookmark_list_only_trunk() {
    let output = "main: abc123 desc\nmaster: def456 desc\n";
    assert_eq!(parse_bookmark_list_output(output, &is_trunk_name), Vec::<String>::new());
}

// --- dispatch_bookmark_advance ---

#[test]
fn dispatch_zero_bookmarks_does_not_call_apply() {
    let called = std::cell::Cell::new(false);
    dispatch_bookmark_advance(&[], "abc123", |_, _| called.set(true));
    assert!(!called.get());
}

#[test]
fn dispatch_one_bookmark_calls_apply_with_correct_args() {
    let captured = std::cell::RefCell::new(None::<(Vec<String>, String)>);
    dispatch_bookmark_advance(&["feat/xyz".to_string()], "abc123", |b, t| {
        *captured.borrow_mut() = Some((b.to_vec(), t.to_string()))
    });
    assert_eq!(
        *captured.borrow(),
        Some((vec!["feat/xyz".to_string()], "abc123".to_string()))
    );
}

#[test]
fn dispatch_multiple_bookmarks_does_not_call_apply() {
    let called = std::cell::Cell::new(false);
    dispatch_bookmark_advance(
        &["feat/a".to_string(), "feat/b".to_string()],
        "abc123",
        |_, _| called.set(true),
    );
    assert!(!called.get());
}

#[test]
fn parse_bookmark_list_skips_indented_remote_lines() {
    let output = "\
feat/xyz: abc1234 desc
  @origin: abc1234 desc
  @upstream: abc1234 desc
";
    assert_eq!(parse_bookmark_list_output(output, &is_trunk_name), vec!["feat/xyz"]);
}
