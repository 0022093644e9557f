//! Bookmark check: the push needs a non-trunk bookmark on `@`, and `@` must
//! hold the reviewed change (not empty, with a description). Each reason to
//! stop has its own message, so that an empty `@` is never answered with
//! "create a bookmark on `@`". A failed `jj bookmark list` stops the push
//! (a bare `jj git push` would send every tracked bookmark).
use vstd::prelude::*;

use crate::text::{
    append_str, chars_of, concat_str, contains, find, lemma_find_from, occurs_at, join, join_strings, lines, owned, split_lines,
    string_of, string_of_span, trim, trim_span, views, vviews,
};

verus! {

// ---------------------------------------------------------------------------
// Types
// ---------------------------------------------------------------------------

/// What is known of `@`. A failed query is never turned into "empty" or "not empty".
#[derive(Debug, PartialEq, Eq)]
pub enum HeadState {
    /// Not empty, with a description: the one state that can be pushed.
    NotEmpty,
    /// Empty.
    Empty,
    /// Not empty, but without a description (jj does not push such a commit).
    Descless,
    /// Not empty; whether it has a description could not be told.
    DescUnknown,
    /// Whether it is empty could not be told.
    Unknown,
}

/// What is known of `@-` when `@` is empty.
#[derive(Debug, PartialEq, Eq)]
pub enum ParentState {
    /// `@-` could not be queried (no parent, or jj failed).
    Unavailable,
    /// `@-` exists; these non-trunk bookmarks are on it (maybe none).
    Available { bookmarks: Vec<String> },
}

/// The verdict of the bookmark check.
#[derive(Debug, PartialEq, Eq)]
pub enum BookmarkCheckOutcome {
    /// `@` can be pushed with these bookmarks (never none).
    Proceed(Vec<String>),
    /// `@` is empty (or its state is unknown).
    EmptyWorkingCopy { parent: ParentState },
    /// `@` is fine but carries no non-trunk bookmark.
    NoBookmarks,
    /// `@` has no description.
    DesclessWorkingCopy,
    /// Whether `@` has a description could not be told.
    UndeterminedWorkingCopy,
    /// `jj bookmark list` itself failed.
    BookmarkListUnavailable { reason: String },
}

// ---------------------------------------------------------------------------
// Specifications
// ---------------------------------------------------------------------------

/// A line of `jj bookmark list` that describes a remote (indented).
pub open spec fn is_remote_line(l: Seq<char>) -> bool {
    l.len() > 0 && (l[0] == ' ' || l[0] == '\t')
}

/// The text of a line before its first `:` (all of it when there is none).
pub open spec fn before_colon(l: Seq<char>) -> Seq<char> {
    match find(l, seq![':']) {
        Some(i) => l.take(i),
        None => l,
    }
}

/// The bookmark names of `jj bookmark list` output, before the trunk filter:
/// for each unindented line, the trimmed text before its first `:`, if any.
pub open spec fn bookmark_candidates(ls: Seq<Seq<char>>) -> Seq<Seq<char>>
    decreases ls.len(),
{
    if ls.len() == 0 {
        seq![]
    } else {
        let r = bookmark_candidates(ls.drop_last());
        let l = ls.last();
        if !is_remote_line(l) && trim(before_colon(l)).len() > 0 {
            r.push(trim(before_colon(l)))
        } else {
            r
        }
    }
}

/// The items of `xs` whose trunk flag in `trunk_flags` is not set, in order.
pub open spec fn select(xs: Seq<Seq<char>>, trunk_flags: Seq<bool>) -> Seq<Seq<char>>
    decreases xs.len(),
{
    if xs.len() == 0 || trunk_flags.len() != xs.len() {
        seq![]
    } else {
        let r = select(xs.drop_last(), trunk_flags.drop_last());
        if !trunk_flags.last() {
            r.push(xs.last())
        } else {
            r
        }
    }
}

/// `args[i]` is the `i`-th name and `is_trunk` may answer `flags[i]` for it.
pub open spec fn judged_non_trunk<F: Fn(&str) -> bool>(
    is_trunk: F,
    names: Seq<Seq<char>>,
    args: Seq<&str>,
    flags: Seq<bool>,
) -> bool {
    &&& flags.len() == names.len()
    &&& args.len() == names.len()
    &&& forall|i: int|
        0 <= i < names.len() ==> (#[trigger] args[i])@ == names[i] && call_ensures(
            is_trunk,
            (args[i],),
            flags[i],
        )
}

/// The state of `@` after its emptiness query.
pub open spec fn head_state_of(result: Result<bool, String>) -> HeadState {
    match result {
        Ok(true) => HeadState::Empty,
        Ok(false) => HeadState::NotEmpty,
        Err(_) => HeadState::Unknown,
    }
}

/// The state of a non-empty `@` after its description query.
pub open spec fn desc_state_of(result: Result<bool, String>) -> HeadState {
    match result {
        Ok(true) => HeadState::NotEmpty,
        Ok(false) => HeadState::Descless,
        Err(_) => HeadState::DescUnknown,
    }
}

/// `r` is the verdict for a head in state `h` carrying the bookmarks `names`,
/// where `parent` is queried only when `@` is empty or unknown.
pub open spec fn outcome_fits<P: FnOnce() -> ParentState>(
    r: BookmarkCheckOutcome,
    names: Seq<Seq<char>>,
    h: HeadState,
    parent: P,
) -> bool {
    match h {
        HeadState::Empty | HeadState::Unknown => exists|p: ParentState|
            call_ensures(parent, (), p) && r == (BookmarkCheckOutcome::EmptyWorkingCopy {
                parent: p,
            }),
        HeadState::Descless => r is DesclessWorkingCopy,
        HeadState::DescUnknown => r is UndeterminedWorkingCopy,
        HeadState::NotEmpty => if names.len() == 0 {
            r is NoBookmarks
        } else {
            r matches BookmarkCheckOutcome::Proceed(v) && views(v@) == names
        },
    }
}

/// The opening of every "`@` is empty" hint.
pub open spec fn empty_head_reason() -> Seq<char> {
    "  push 不可: レビュー対象の diff は `@` から取得するため、`@` が空のままでは\n  \
     AI レビューが skip されたまま push されます。\n"@
}

/// The closing note of the hints that advise `jj edit @-`.
pub open spec fn abandon_note() -> Seq<char> {
    "  (不要になった空の WIP コミットは `jj abandon <change_id>` で削除できます)"@
}

/// The summary line for an empty `@`.
pub open spec fn empty_summary_text(parent: ParentState) -> Seq<char> {
    match parent {
        ParentState::Unavailable => "`@` が空です (親コミットを確認できません)"@,
        ParentState::Available { bookmarks } => if bookmarks@.len() == 0 {
            "`@` が空です"@
        } else {
            "`@` が空です (bookmark は @- にあります: "@ + join(views(bookmarks@), ", "@) + ")"@
        },
    }
}

/// The hint for an empty `@`: `jj edit @-` only when `@-` is known to exist,
/// and bookmark creation too when `@-` has no bookmark.
pub open spec fn empty_hint_text(parent: ParentState) -> Seq<char> {
    match parent {
        ParentState::Unavailable => empty_head_reason()
            + "  対処: push する変更を `@` に作成するか、`jj edit <change_id>` で既存の\n  \
             コミットへ移動してから再実行してください"@,
        ParentState::Available { bookmarks } => if bookmarks@.len() == 0 {
            empty_head_reason()
                + "  対処: `jj edit @-` で `@` を 1 つ前のコミットへ移動し、\n  \
                 `jj bookmark create <name> -r @` で bookmark を作成してから再実行してください\n"@
                + abandon_note()
        } else {
            empty_head_reason()
                + "  対処: `jj edit @-` で `@` を 1 つ前のコミットへ移動して再実行してください\n"@
                + abandon_note()
        },
    }
}

/// The hint when `jj bookmark list` failed: it says what going on would do.
pub open spec fn list_unavailable_hint_text() -> Seq<char> {
    "  push 不可: push 対象の bookmark を特定できませんでした。\n  \
     このまま続行すると `jj git push` が tracked bookmark を全件送るため、\n  \
     レビュー範囲 (`<default_branch>..@`) 外のコミット (他 workspace / 夜間ループの\n  \
     bookmark) が AI レビューを経ずに push されます。\n  \
     対処: `jj bookmark list -r @` が通ることを確認し、jj の不調 (lock 競合 / 応答遅延) が\n  \
     解消してから再実行してください"@
}

/// The summary and the hint of a verdict that stops the push.
pub open spec fn abort_texts(outcome: BookmarkCheckOutcome) -> (Seq<char>, Seq<char>) {
    match outcome {
        BookmarkCheckOutcome::Proceed(_) => (seq![], seq![]),
        BookmarkCheckOutcome::EmptyWorkingCopy { parent } => (
            empty_summary_text(parent),
            empty_hint_text(parent),
        ),
        BookmarkCheckOutcome::NoBookmarks => (
            "ローカル bookmark (非 trunk) が見つかりません"@,
            "  push 不可: `jj git push` は bookmark が必要です。\n  \
             対処: `jj bookmark create <name> -r @` で bookmark を作成して再実行してください\n  \
             例: `jj bookmark create feat/my-feature -r @`"@,
        ),
        BookmarkCheckOutcome::UndeterminedWorkingCopy => (
            "@ の状態を判定できませんでした (push 不可)"@,
            "  push 不可: jj の照会に失敗し、`@` に description があるか確認できませんでした。\n  \
             対処: `jj log -r @` で状態を確認し、jj の不調が解消してから再実行してください\n  \
             注意: `@` が空とは限りません (空判定自体は成功しています)"@,
        ),
        BookmarkCheckOutcome::DesclessWorkingCopy => (
            "@ に description がありません (push 不可)"@,
            "  push 不可: jj は説明なしコミットを push できません (`Won't push commit ... no description`)。\n  \
             対処: `jj describe -m \"<説明>\"` で説明を付けるか、`jj squash -u` で親コミットへ畳んで再実行してください\n  \
             注意: この状態で `jj bookmark create -r @` はしないこと (push 不能な bookmark になります)"@,
        ),
        BookmarkCheckOutcome::BookmarkListUnavailable { reason } => (
            "jj bookmark list に失敗しました (push 不可): "@ + reason@,
            list_unavailable_hint_text(),
        ),
    }
}

// ---------------------------------------------------------------------------
// Executable functions
// ---------------------------------------------------------------------------

/// The non-trunk bookmark names of `jj bookmark list` output: unindented
/// lines, the trimmed text before the first `:`, without blanks, and
/// without the names `is_trunk` holds to be trunk.
pub fn parse_non_trunk_bookmarks<F: Fn(&str) -> bool>(raw: &str, is_trunk: &F) -> (r: Vec<String>)
    requires
        forall|s: &str| call_requires(*is_trunk, (s,)),
    ensures
        exists|args: Seq<&str>, trunk_flags: Seq<bool>|
            judged_non_trunk(*is_trunk, bookmark_candidates(lines(raw@)), args, trunk_flags)
                && views(r@) == select(bookmark_candidates(lines(raw@)), trunk_flags),
{
    let ls = split_lines(raw);
    let ghost ln = lines(raw@);
    let ghost mut trunk_flags: Seq<bool> = seq![];
    let ghost mut args: Seq<&str> = seq![];
    let mut r: Vec<String> = Vec::new();
    let colon: Vec<char> = vec![':'];
    let mut i: usize = 0;
    while i < ls.len()
        invariant
            i <= ls@.len(),
            ln == vviews(ls@),
            colon@ == seq![':'],
            forall|s: &str| call_requires(*is_trunk, (s,)),
            judged_non_trunk(*is_trunk, bookmark_candidates(ln.take(i as int)), args, trunk_flags),
            views(r@) == select(bookmark_candidates(ln.take(i as int)), trunk_flags),
        decreases ls@.len() - i,
    {
        let l = &ls[i];
        let ghost cands = bookmark_candidates(ln.take(i as int));
        proof {
            assert(ln.take(i + 1).drop_last() == ln.take(i as int));
            assert(ln.take(i + 1).last() == l@);
        }
        let remote = l.len() > 0 && (l[0] == ' ' || l[0] == '\t');
        if !remote {
            let end = match crate::text::find_from_exec(l.as_slice(), l.len(), colon.as_slice(), 0) {
                Some(k) => k,
                None => l.len(),
            };
            proof {
                assert(l@.subrange(0, l@.len() as int) == l@);
                crate::text::lemma_find_from(l@, colon@, 0);
                assert(before_colon(l@) == l@.subrange(0, end as int));
            }
            let (a, b) = trim_span(l.as_slice(), 0, end);
            if a < b {
                let name = string_of_span(l.as_slice(), a, b);
                let ns: &str = name.as_str();
                let trunk = is_trunk(ns);
                proof {
                    let ghost old_trunk = trunk_flags;
                    let ghost old_args = args;
                    trunk_flags = trunk_flags.push(trunk);
                    args = args.push(ns);
                    let nc = cands.push(name@);
                    assert(bookmark_candidates(ln.take(i + 1)) == nc);
                    assert(nc.drop_last() == cands);
                    assert(trunk_flags.drop_last() == old_trunk);
                    assert forall|j: int| 0 <= j < nc.len() implies (#[trigger] args[j])@ == nc[j]
                        && call_ensures(*is_trunk, (args[j],), trunk_flags[j]) by {
                        if j < cands.len() {
                            assert(old_args[j] == args[j]);
                            assert(nc[j] == cands[j]);
                            assert(trunk_flags[j] == old_trunk[j]);
                        }
                    }
                }
                if !trunk {
                    let ghost before = r@;
                    r.push(name);
                    assert(views(r@) == views(before).push(name@));
                }
            } else {
                assert(trim(before_colon(l@)).len() == 0);
                assert(bookmark_candidates(ln.take(i + 1)) == cands);
            }
        } else {
            assert(is_remote_line(l@));
            assert(bookmark_candidates(ln.take(i + 1)) == cands);
        }
        i += 1;
    }
    assert(ln.take(ls@.len() as int) == ln);
    r
}

/// The state of `@` after its emptiness query (a failure is `Unknown`).
pub fn classify_head_state(result: Result<bool, String>) -> (h: HeadState)
    ensures
        h == head_state_of(result),
{
    match result {
        Ok(true) => HeadState::Empty,
        Ok(false) => HeadState::NotEmpty,
        Err(_) => HeadState::Unknown,
    }
}

/// The state of a non-empty `@` after its description query (a failure is
/// `DescUnknown`).
pub fn classify_desc_state(result: Result<bool, String>) -> (h: HeadState)
    ensures
        h == desc_state_of(result),
{
    match result {
        Ok(true) => HeadState::NotEmpty,
        Ok(false) => HeadState::Descless,
        Err(_) => HeadState::DescUnknown,
    }
}

/// The state of `@`: emptiness first, then (only for a non-empty `@`) the
/// description.
pub fn query_head_state<E: FnOnce() -> Result<bool, String>, D: FnOnce() -> Result<bool, String>>(
    is_empty: E,
    has_description: D,
) -> (h: HeadState)
    requires
        call_requires(is_empty, ()),
        call_requires(has_description, ()),
    ensures
        exists|e: Result<bool, String>|
            call_ensures(is_empty, (), e) && if head_state_of(e) is NotEmpty {
                exists|d: Result<bool, String>|
                    call_ensures(has_description, (), d) && h == desc_state_of(d)
            } else {
                h == head_state_of(e)
            },
{
    let e = is_empty();
    let ghost ge = e;
    let state = classify_head_state(e);
    match state {
        HeadState::NotEmpty => {
            let d = has_description();
            let ghost gd = d;
            let h = classify_desc_state(d);
            assert(call_ensures(has_description, (), gd) && h == desc_state_of(gd));
            assert(call_ensures(is_empty, (), ge));
            h
        },
        _ => {
            assert(call_ensures(is_empty, (), ge));
            state
        },
    }
}

/// The state of `@-` from its `jj bookmark list` query.
pub fn query_parent_state<F: Fn(&str) -> bool>(raw: Result<String, String>, is_trunk: &F) -> (p:
    ParentState)
    requires
        forall|s: &str| call_requires(*is_trunk, (s,)),
    ensures
        raw is Err ==> p is Unavailable,
        raw matches Ok(text) ==> p matches ParentState::Available { bookmarks } && exists|
            args: Seq<&str>,
            trunk_flags: Seq<bool>,
        |
            judged_non_trunk(*is_trunk, bookmark_candidates(lines(text@)), args, trunk_flags)
                && views(bookmarks@) == select(bookmark_candidates(lines(text@)), trunk_flags),
{
    match raw {
        Ok(text) => ParentState::Available {
            bookmarks: parse_non_trunk_bookmarks(text.as_str(), is_trunk),
        },
        Err(_) => ParentState::Unavailable,
    }
}

/// The verdict for a head in state `head_state` carrying `bookmarks_at_head`.
/// An empty or unknown `@` stops the push before anything else (and only
/// then is `@-` queried); a head without description stops it next; a good
/// head without bookmark stops it last.
pub fn decide_bookmark_check<P: FnOnce() -> ParentState>(
    bookmarks_at_head: Vec<String>,
    head_state: HeadState,
    parent: P,
) -> (r: BookmarkCheckOutcome)
    requires
        call_requires(parent, ()),
    ensures
        outcome_fits(r, views(bookmarks_at_head@), head_state, parent),
        r matches BookmarkCheckOutcome::Proceed(v) ==> v@.len() > 0 && head_state is NotEmpty,
{
    match head_state {
        HeadState::Empty | HeadState::Unknown => {
            let p = parent();
            let ghost gp = p;
            let r = BookmarkCheckOutcome::EmptyWorkingCopy { parent: p };
            assert(call_ensures(parent, (), gp) && r == (BookmarkCheckOutcome::EmptyWorkingCopy {
                parent: gp,
            }));
            return r;
        },
        HeadState::Descless => {
            return BookmarkCheckOutcome::DesclessWorkingCopy;
        },
        HeadState::DescUnknown => {
            return BookmarkCheckOutcome::UndeterminedWorkingCopy;
        },
        HeadState::NotEmpty => {},
    }
    if bookmarks_at_head.len() == 0 {
        return BookmarkCheckOutcome::NoBookmarks;
    }
    BookmarkCheckOutcome::Proceed(bookmarks_at_head)
}


/// The outcome `r` is the one decided from the bookmark listing `raw`: an
/// unavailable listing is reported as such; else the non-trunk candidates
/// of the listing, the head's state and the parent decide.
pub open spec fn decided_from_list<
    F: Fn(&str) -> bool,
    H: FnOnce() -> HeadState,
    P: FnOnce() -> ParentState,
>(raw: Result<String, String>, is_trunk: F, head_state: H, parent: P, r: BookmarkCheckOutcome) -> bool {
    &&& raw matches Err(reason) ==> r == (BookmarkCheckOutcome::BookmarkListUnavailable { reason })
    &&& raw matches Ok(text) ==> exists|args: Seq<&str>, trunk_flags: Seq<bool>, h: HeadState|
        judged_non_trunk(is_trunk, bookmark_candidates(lines(text@)), args, trunk_flags)
            && call_ensures(
            head_state,
            (),
            h,
        ) && outcome_fits(r, select(bookmark_candidates(lines(text@)), trunk_flags), h, parent)
    &&& r matches BookmarkCheckOutcome::Proceed(v) ==> v@.len() > 0
}

/// The verdict from the `jj bookmark list -r @` result. A failed listing
/// stops the push without querying `@`.
pub fn decide_from_bookmark_list<
    F: Fn(&str) -> bool,
    H: FnOnce() -> HeadState,
    P: FnOnce() -> ParentState,
>(raw: Result<String, String>, is_trunk: &F, head_state: H, parent: P) -> (r:
    BookmarkCheckOutcome)
    requires
        forall|s: &str| call_requires(*is_trunk, (s,)),
        call_requires(head_state, ()),
        call_requires(parent, ()),
    ensures
        decided_from_list(raw, *is_trunk, head_state, parent, r),
{
    match raw {
        Ok(text) => {
            let names = parse_non_trunk_bookmarks(text.as_str(), is_trunk);
            let h = head_state();
            let ghost gh = h;
            let r = decide_bookmark_check(names, h, parent);
            assert(call_ensures(head_state, (), gh));
            r
        },
        Err(reason) => BookmarkCheckOutcome::BookmarkListUnavailable { reason },
    }
}

/// The bookmarks to push when the verdict lets the push go on.
pub fn report_outcome(outcome: BookmarkCheckOutcome) -> (r: Option<Vec<String>>)
    ensures
        match outcome {
            BookmarkCheckOutcome::Proceed(v) => r == Some(v),
            _ => r is None,
        },
{
    match outcome {
        BookmarkCheckOutcome::Proceed(bookmarks) => Some(bookmarks),
        _ => None,
    }
}

/// The hint when `jj bookmark list` failed.
pub fn bookmark_list_unavailable_hint() -> (r: String)
    ensures
        r@ == list_unavailable_hint_text(),
{
    owned(
        "  push 不可: push 対象の bookmark を特定できませんでした。\n  \
         このまま続行すると `jj git push` が tracked bookmark を全件送るため、\n  \
         レビュー範囲 (`<default_branch>..@`) 外のコミット (他 workspace / 夜間ループの\n  \
         bookmark) が AI レビューを経ずに push されます。\n  \
         対処: `jj bookmark list -r @` が通ることを確認し、jj の不調 (lock 競合 / 応答遅延) が\n  \
         解消してから再実行してください",
    )
}

/// The summary line for an empty `@`; it names the bookmarks of `@-`.
pub fn empty_working_copy_summary(parent: &ParentState) -> (r: String)
    ensures
        r@ == empty_summary_text(*parent),
{
    match parent {
        ParentState::Unavailable => owned("`@` が空です (親コミットを確認できません)"),
        ParentState::Available { bookmarks } => {
            if bookmarks.len() == 0 {
                owned("`@` が空です")
            } else {
                let mut out: Vec<char> = chars_of("`@` が空です (bookmark は @- にあります: ");
                let joined = join_strings(bookmarks.as_slice(), ", ");
                append_str(&mut out, joined.as_str());
                append_str(&mut out, ")");
                string_of(&out)
            }
        },
    }
}

/// The hint for an empty `@`.
pub fn empty_working_copy_hint(parent: &ParentState) -> (r: String)
    ensures
        r@ == empty_hint_text(*parent),
{
    let mut out: Vec<char> = chars_of(
        "  push 不可: レビュー対象の diff は `@` から取得するため、`@` が空のままでは\n  \
         AI レビューが skip されたまま push されます。\n",
    );
    match parent {
        ParentState::Unavailable => {
            append_str(
                &mut out,
                "  対処: push する変更を `@` に作成するか、`jj edit <change_id>` で既存の\n  \
                 コミットへ移動してから再実行してください",
            );
        },
        ParentState::Available { bookmarks } => {
            if bookmarks.len() == 0 {
                append_str(
                    &mut out,
                    "  対処: `jj edit @-` で `@` を 1 つ前のコミットへ移動し、\n  \
                     `jj bookmark create <name> -r @` で bookmark を作成してから再実行してください\n",
                );
            } else {
                append_str(
                    &mut out,
                    "  対処: `jj edit @-` で `@` を 1 つ前のコミットへ移動して再実行してください\n",
                );
            }
            append_str(
                &mut out,
                "  (不要になった空の WIP コミットは `jj abandon <change_id>` で削除できます)",
            );
        },
    }
    string_of(&out)
}

/// The summary and the hint of a verdict that stops the push.
pub fn abort_report(outcome: BookmarkCheckOutcome) -> (r: (String, String))
    requires
        !(outcome is Proceed),
    ensures
        (r.0@, r.1@) == abort_texts(outcome),
{
    match outcome {
        BookmarkCheckOutcome::Proceed(_) => (String::new(), String::new()),
        BookmarkCheckOutcome::EmptyWorkingCopy { parent } => (
            empty_working_copy_summary(&parent),
            empty_working_copy_hint(&parent),
        ),
        BookmarkCheckOutcome::NoBookmarks => (
            owned("ローカル bookmark (非 trunk) が見つかりません"),
            owned(
                "  push 不可: `jj git push` は bookmark が必要です。\n  \
                 対処: `jj bookmark create <name> -r @` で bookmark を作成して再実行してください\n  \
                 例: `jj bookmark create feat/my-feature -r @`",
            ),
        ),
        BookmarkCheckOutcome::UndeterminedWorkingCopy => (
            owned("@ の状態を判定できませんでした (push 不可)"),
            owned(
                "  push 不可: jj の照会に失敗し、`@` に description があるか確認できませんでした。\n  \
                 対処: `jj log -r @` で状態を確認し、jj の不調が解消してから再実行してください\n  \
                 注意: `@` が空とは限りません (空判定自体は成功しています)",
            ),
        ),
        BookmarkCheckOutcome::DesclessWorkingCopy => (
            owned("@ に description がありません (push 不可)"),
            owned(
                "  push 不可: jj は説明なしコミットを push できません (`Won't push commit ... no description`)。\n  \
                 対処: `jj describe -m \"<説明>\"` で説明を付けるか、`jj squash -u` で親コミットへ畳んで再実行してください\n  \
                 注意: この状態で `jj bookmark create -r @` はしないこと (push 不能な bookmark になります)",
            ),
        ),
        BookmarkCheckOutcome::BookmarkListUnavailable { reason } => (
            concat_str("jj bookmark list に失敗しました (push 不可): ", reason.as_str()),
            bookmark_list_unavailable_hint(),
        ),
    }
}

/// The bookmarks of this workspace that the push may carry: `list` gives
/// the bookmark listing of `@`, `is_trunk` tells trunk names, `head_state`
/// and `parent` query the working copy when no bookmark is found. `None`
/// stops the push.
pub fn detect_own_workspace_bookmarks<
    L: FnOnce() -> Result<String, String>,
    F: Fn(&str) -> bool,
    H: FnOnce() -> HeadState,
    P: FnOnce() -> ParentState,
>(list: L, is_trunk: &F, head_state: H, parent: P) -> (r: Option<Vec<String>>)
    requires
        call_requires(list, ()),
        forall|s: &str| call_requires(*is_trunk, (s,)),
        call_requires(head_state, ()),
        call_requires(parent, ()),
    ensures
        exists|raw: Result<String, String>, outcome: BookmarkCheckOutcome|
            call_ensures(list, (), raw) && decided_from_list(
                raw,
                *is_trunk,
                head_state,
                parent,
                outcome,
            ) && r == match outcome {
                BookmarkCheckOutcome::Proceed(v) => Some(v),
                _ => None::<Vec<String>>,
            },
        r matches Some(v) ==> v@.len() > 0,
{
    let raw = list();
    let ghost raw_g = raw;
    assert(call_ensures(list, (), raw_g));
    let outcome = decide_from_bookmark_list(raw, is_trunk, head_state, parent);
    let ghost outcome_g = outcome;
    let r = report_outcome(outcome);
    assert(decided_from_list(raw_g, *is_trunk, head_state, parent, outcome_g));
    r
}

/// A push stopped because the bookmark list could not be had names the
/// reason in its summary and says in its hint what harm a push would do.
pub proof fn lemma_unavailable_list_report_names_reason(reason: String)
    ensures
        contains(
            abort_texts(BookmarkCheckOutcome::BookmarkListUnavailable { reason }).0,
            reason@,
        ),
        abort_texts(BookmarkCheckOutcome::BookmarkListUnavailable { reason }).1
            == list_unavailable_hint_text(),
{
    let pre = "jj bookmark list に失敗しました (push 不可): "@;
    let s = pre + reason@;
    assert(s.subrange(pre.len() as int, (pre.len() + reason@.len()) as int) =~= reason@);
    assert(occurs_at(s, reason@, pre.len() as int));
    lemma_find_from(s, reason@, 0);
}

} // verus!
