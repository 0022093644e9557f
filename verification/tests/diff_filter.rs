use cli_push_runner::stages::lint_screen::diff_filter::{
    filter_excluded_hunks, strip_diff_metadata_lines, FilterResult,
};

fn rust_chunk(path: &str) -> String {
    format!(
        "diff --git a/{path} b/{path}\n\
         index abc..def 100644\n\
         --- a/{path}\n\
         +++ b/{path}\n\
         @@ -1,1 +1,1 @@\n\
         -old\n\
         +new\n",
        path = path
    )
}

fn md_chunk(path: &str) -> String {
    format!(
        "diff --git a/{path} b/{path}\n\
         index abc..def 100644\n\
         --- a/{path}\n\
         +++ b/{path}\n\
         @@ -1,1 +1,1 @@\n\
         -# heading\n\
         +# heading updated\n",
        path = path
    )
}

fn assert_kept(result: FilterResult) -> String {
    match result {
        FilterResult::Kept(text) => text,
        FilterResult::AllExcluded => panic!("expected Kept, got AllExcluded"),
    }
}

#[test]
fn diff_filter_filter_excluded_hunks_keeps_rust_only_diff_unchanged() {
    let diff = rust_chunk("src/lib.rs");
    let result = assert_kept(filter_excluded_hunks(&diff));
    assert_eq!(result, diff);
}

#[test]
fn diff_filter_filter_excluded_hunks_drops_md_hunk_from_mixed_diff() {
    let rust = rust_chunk("src/main.rs");
    let md = md_chunk("docs/README.md");
    let combined = format!("{}{}", rust, md);
    let kept = assert_kept(filter_excluded_hunks(&combined));
    assert!(kept.contains("src/main.rs"));
    assert!(!kept.contains("docs/README.md"));
}

#[test]
fn diff_filter_filter_excluded_hunks_signals_all_excluded_for_pure_markdown_diff() {
    let diff = format!("{}{}", md_chunk("docs/a.md"), md_chunk("docs/b.markdown"));
    match filter_excluded_hunks(&diff) {
        FilterResult::AllExcluded => {}
        FilterResult::Kept(_) => panic!("expected AllExcluded for pure .md/.markdown diff"),
    }
}

#[test]
fn diff_filter_filter_excluded_hunks_treats_markdown_extension_case_insensitively() {
    let diff = format!("{}{}", md_chunk("README.MD"), md_chunk("notes.Markdown"));
    match filter_excluded_hunks(&diff) {
        FilterResult::AllExcluded => {}
        FilterResult::Kept(_) => {
            panic!("uppercase .MD / mixed-case .Markdown must be excluded")
        }
    }
}

#[test]
fn diff_filter_filter_excluded_hunks_keeps_path_with_md_in_middle_not_extension() {
    let diff = rust_chunk("src/something.mdxyz.rs");
    let kept = assert_kept(filter_excluded_hunks(&diff));
    assert_eq!(kept, diff);
}

#[test]
fn diff_filter_filter_excluded_hunks_handles_non_diff_input_as_passthrough() {
    let raw = "not a unified diff\njust raw text";
    let kept = assert_kept(filter_excluded_hunks(raw));
    assert_eq!(kept, raw);
}

#[test]
fn diff_filter_filter_excluded_hunks_keeps_dev_null_create_path() {
    let diff = "diff --git a/src/new.rs b/src/new.rs\n\
                new file mode 100644\n\
                index 0000000..1234567\n\
                --- /dev/null\n\
                +++ b/src/new.rs\n\
                @@ -0,0 +1,1 @@\n\
                +pub fn x() {}\n";
    let kept = assert_kept(filter_excluded_hunks(diff));
    assert!(kept.contains("src/new.rs"));
}

#[test]
fn diff_filter_filter_excluded_hunks_prefers_b_path_on_rename_to_markdown() {
    let diff = "diff --git a/src/a.rs b/docs/a.md\n\
                similarity index 100%\n\
                rename from src/a.rs\n\
                rename to docs/a.md\n\
                --- a/src/a.rs\n\
                +++ b/docs/a.md\n\
                @@ -1,1 +1,1 @@\n\
                -old\n\
                +new\n";
    match filter_excluded_hunks(diff) {
        FilterResult::AllExcluded => {}
        FilterResult::Kept(_) => {
            panic!("rename .rs -> .md must be excluded based on new path (CR #155 Major)")
        }
    }
}

#[test]
fn diff_filter_filter_excluded_hunks_keeps_rename_from_md_to_rust() {
    let diff = "diff --git a/docs/old.md b/src/new.rs\n\
                similarity index 100%\n\
                rename from docs/old.md\n\
                rename to src/new.rs\n\
                --- a/docs/old.md\n\
                +++ b/src/new.rs\n\
                @@ -1,1 +1,1 @@\n\
                -old\n\
                +new\n";
    let kept = assert_kept(filter_excluded_hunks(diff));
    assert!(
        kept.contains("src/new.rs"),
        "rename .md -> .rs must be kept based on new path (symmetric to rename-to-md test)"
    );
}

#[test]
fn diff_filter_filter_excluded_hunks_excludes_dev_null_delete_of_md() {
    let diff = "diff --git a/docs/old.md b/docs/old.md\n\
                deleted file mode 100644\n\
                index 1234567..0000000\n\
                --- a/docs/old.md\n\
                +++ /dev/null\n\
                @@ -1,1 +0,0 @@\n\
                -# removed\n";
    match filter_excluded_hunks(diff) {
        FilterResult::AllExcluded => {}
        FilterResult::Kept(_) => panic!(
            "delete of .md file should be excluded (--- a/ path is .md, +++ is /dev/null)"
        ),
    }
}

#[test]
fn diff_filter_filter_excluded_hunks_preserves_hunk_boundaries_for_three_file_mixed() {
    let diff = format!(
        "{}{}{}",
        rust_chunk("src/a.rs"),
        md_chunk("docs/b.md"),
        rust_chunk("src/c.rs"),
    );
    let kept = assert_kept(filter_excluded_hunks(&diff));
    assert!(kept.contains("src/a.rs"));
    assert!(!kept.contains("docs/b.md"));
    assert!(kept.contains("src/c.rs"));
    let lines: Vec<&str> = kept
        .lines()
        .filter(|l| l.starts_with("diff --git "))
        .collect();
    assert_eq!(
        lines.len(),
        2,
        "exactly 2 diff --git boundaries must remain"
    );
}

#[test]
fn diff_filter_strip_diff_metadata_drops_similarity_index_line() {
    let diff = "diff --git a/src/a.rs b/src/b.rs\n\
                similarity index 100%\n\
                rename from src/a.rs\n\
                rename to src/b.rs\n\
                --- a/src/a.rs\n\
                +++ b/src/b.rs\n\
                @@ -1,1 +1,1 @@\n\
                -old\n\
                +new\n";
    let stripped = strip_diff_metadata_lines(diff);
    assert!(
        !stripped.contains("similarity index"),
        "similarity index line must be stripped, got: {}",
        stripped
    );
    assert!(!stripped.contains("100%"));
    assert!(!stripped.contains("rename from"));
    assert!(!stripped.contains("rename to"));
}

#[test]
fn diff_filter_strip_diff_metadata_preserves_hunk_boundaries_and_content() {
    let diff = "diff --git a/src/x.rs b/src/x.rs\nindex abc1234..def5678 100644\n--- a/src/x.rs\n+++ b/src/x.rs\n@@ -1,2 +1,2 @@\n-fn old() {}\n+fn new() {}\n // unchanged context line\n";
    let stripped = strip_diff_metadata_lines(diff);
    assert!(stripped.contains("diff --git "));
    assert!(stripped.contains("--- a/src/x.rs"));
    assert!(stripped.contains("+++ b/src/x.rs"));
    assert!(stripped.contains("@@ -1,2 +1,2 @@"));
    assert!(stripped.contains("-fn old() {}"));
    assert!(stripped.contains("+fn new() {}"));
    assert!(stripped.contains(" // unchanged context line"));
    assert!(!stripped.contains("index abc1234"));
}

#[test]
fn diff_filter_strip_diff_metadata_drops_file_mode_lines() {
    let diff = "diff --git a/script.sh b/script.sh\n\
                old mode 100644\n\
                new mode 100755\n\
                --- a/script.sh\n\
                +++ b/script.sh\n";
    let stripped = strip_diff_metadata_lines(diff);
    assert!(!stripped.contains("old mode"));
    assert!(!stripped.contains("new mode"));
    assert!(!stripped.contains("100755"));
    assert!(stripped.contains("--- a/script.sh"));
}

#[test]
fn diff_filter_strip_diff_metadata_drops_new_and_deleted_file_mode() {
    let diff = "diff --git a/created.rs b/created.rs\n\
                new file mode 100644\n\
                index 0000000..1234567\n\
                --- /dev/null\n\
                +++ b/created.rs\n\
                diff --git a/removed.rs b/removed.rs\n\
                deleted file mode 100644\n\
                index 7654321..0000000\n\
                --- a/removed.rs\n\
                +++ /dev/null\n";
    let stripped = strip_diff_metadata_lines(diff);
    assert!(!stripped.contains("new file mode"));
    assert!(!stripped.contains("deleted file mode"));
    assert!(!stripped.contains("100644"));
    assert!(stripped.contains("--- /dev/null"));
    assert!(stripped.contains("+++ /dev/null"));
}

#[test]
fn diff_filter_strip_diff_metadata_drops_copy_lines() {
    let diff = "diff --git a/orig.rs b/copy.rs\n\
                similarity index 95%\n\
                copy from orig.rs\n\
                copy to copy.rs\n\
                --- a/orig.rs\n\
                +++ b/copy.rs\n";
    let stripped = strip_diff_metadata_lines(diff);
    assert!(!stripped.contains("copy from"));
    assert!(!stripped.contains("copy to"));
    assert!(!stripped.contains("similarity index"));
    assert!(stripped.contains("+++ b/copy.rs"));
}

#[test]
fn diff_filter_strip_diff_metadata_drops_dissimilarity_index() {
    let diff = "dissimilarity index 30%\n+changed\n";
    let stripped = strip_diff_metadata_lines(diff);
    assert!(!stripped.contains("dissimilarity index"));
    assert!(stripped.contains("+changed"));
}

#[test]
fn diff_filter_strip_diff_metadata_keeps_content_lines_with_metadata_keywords_as_substring() {
    let diff = "+let index = 0;\n\
                -println!(\"similarity index ratio\");\n\
                + // index of array\n";
    let stripped = strip_diff_metadata_lines(diff);
    assert!(stripped.contains("+let index = 0;"));
    assert!(stripped.contains("-println!(\"similarity index ratio\");"));
    assert!(stripped.contains("+ // index of array"));
}
