use cli_push_runner::stages::push::{
    build_push_command, has_explicit_push_target, is_shell_safe_bookmark_name, push_was_refused,
};

#[test]
fn refused_detects_new_remote_bookmark_warning() {
    let output = "Warning: Refusing to create new remote bookmark fix/foo@origin\n\
        Hint: Run `jj bookmark track ...` and try again.\nNothing changed.";
    assert!(push_was_refused(output));
}

#[test]
fn refused_is_case_insensitive() {
    assert!(push_was_refused("REFUSING TO push a commit"));
}

#[test]
fn successful_push_is_not_refused() {
    let output = "Changes to push to origin:\n  \
        Add bookmark fix/foo to 3000737e";
    assert!(!push_was_refused(output));
}

#[test]
fn empty_output_is_not_refused() {
    assert!(!push_was_refused(""));
}

#[test]
fn build_appends_single_bookmark() {
    let cmd = build_push_command("jj git push", &["feat/xyz".into()]);
    assert_eq!(cmd, "jj git push -b feat/xyz");
}

#[test]
fn build_appends_multiple_bookmarks() {
    let cmd = build_push_command("jj git push", &["feat/a".into(), "fix-b".into()]);
    assert_eq!(cmd, "jj git push -b feat/a -b fix-b");
}

/// 派生プロジェクトの旧 config (`--all`) は従来挙動を維持する (後方互換)。
#[test]
fn build_keeps_legacy_all_config_as_is() {
    let cmd = build_push_command("jj git push --all", &["feat/xyz".into()]);
    assert_eq!(cmd, "jj git push --all");
}

#[test]
fn build_keeps_base_when_bookmark_already_specified() {
    let cmd = build_push_command("jj git push -b manual", &["feat/xyz".into()]);
    assert_eq!(cmd, "jj git push -b manual");
}

#[test]
fn build_keeps_non_jj_command_as_is() {
    let cmd = build_push_command("git push", &["feat/xyz".into()]);
    assert_eq!(cmd, "git push");
}

/// fail-open: bookmark 未検出時は base のまま (tracked-only push、拒否は refused 検知)。
#[test]
fn build_keeps_base_when_no_bookmarks_detected() {
    let cmd = build_push_command("jj git push", &[]);
    assert_eq!(cmd, "jj git push");
}

/// shell メタ文字を含む bookmark 名は injection 防止のため付与しない (base のまま)。
#[test]
fn build_rejects_shell_unsafe_bookmark_names() {
    let cmd = build_push_command("jj git push", &["feat/x; rm -rf".into()]);
    assert_eq!(cmd, "jj git push");
    let cmd2 = build_push_command("jj git push", &["ok".into(), "bad$(cmd)".into()]);
    assert_eq!(cmd2, "jj git push");
}

#[test]
fn explicit_target_detects_flag_with_equals_form() {
    assert!(has_explicit_push_target("jj git push --bookmark=feat/x"));
    assert!(has_explicit_push_target("jj git push --named myfeature=@"));
    assert!(!has_explicit_push_target("jj git push"));
}

#[test]
fn shell_safe_accepts_typical_names_rejects_meta() {
    assert!(is_shell_safe_bookmark_name("feat/my-feature_1.2"));
    assert!(!is_shell_safe_bookmark_name(""));
    assert!(!is_shell_safe_bookmark_name("a b"));
    assert!(!is_shell_safe_bookmark_name("a\"b"));
    assert!(!is_shell_safe_bookmark_name("a|b"));
}
