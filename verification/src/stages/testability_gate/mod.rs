//! Testability gate: the changed Rust files of the PR range are scanned for
//! functions that interpret I/O output in place (no pure function to test).
//! Known firings are listed in a frozen baseline. In `warning` mode the
//! push goes on; in `deny` mode a finding, or a scan that could not be
//! completed, stops it.
pub mod detect;

use vstd::prelude::*;

use crate::config::testability_gate::TestabilityGateConfig;
use detect::{finding_views, items_findings, scan_items, ItemModel};
use crate::stages::diff::normalize_sep;
use crate::text::{
    owned,
    append_span, append_str, chars_eq, chars_of, concat_str, debug_quote, debug_str, ends_with,
    find, find_from_exec, join, join_strings, lemma_find_from, lines, split_char, split_lines,
    split_on_char, span_ends_with, string_of, lemma_split_char_nonempty, string_of_span, trim, trim_span, views, vviews,
};

verus! {

// ---------------------------------------------------------------------------
// Types
// ---------------------------------------------------------------------------

/// A function that interprets I/O output in place.
#[derive(Debug, PartialEq, Eq)]
pub struct Violation {
    pub file: String,
    pub function: String,
    pub line: usize,
}

/// A telemetry firing of the stage: its id, whether it stopped the push
/// (else it only warned), and the label of its reason, if any.
#[derive(Debug, PartialEq, Eq)]
pub struct Firing {
    pub id: String,
    pub block: bool,
    pub reason: Option<String>,
}

/// The baseline may not grow past this many entries.
pub const BASELINE_FROZEN_LEN: usize = 8;

// ---------------------------------------------------------------------------
// Specifications
// ---------------------------------------------------------------------------

/// The frozen baseline: (file suffix, function).
pub open spec fn baseline_spec() -> Seq<(Seq<char>, Seq<char>)> {
    seq![
        ("src/cli-pr-monitor/src/fix_commit/abandon.rs"@, "parent_commit_id_is"@),
        ("src/cli-pr-monitor/src/runner.rs"@, "diff_is_empty"@),
        ("src/cli-push-runner/src/stages/push_jj_bookmark.rs"@, "working_copy_is_empty"@),
        ("src/cli-push-runner/src/stages/push_jj_bookmark.rs"@, "head_has_description"@),
        ("src/hooks-session-start/src/jj_helpers.rs"@, "fetch_head_is_recent"@),
        ("src/hooks-stop-quality/src/takt_subsession.rs"@, "meta_status_is_running"@),
        ("src/hooks-stop-quality/src/takt_subsession.rs"@, "meta_is_fresh"@),
        ("src/lib-telemetry/src/lib.rs"@, "telemetry_enabled"@),
    ]
}

/// The finding at `path` for `function` is in the baseline.
pub open spec fn baselined(path: Seq<char>, function: Seq<char>) -> bool {
    exists|k: int|
        0 <= k < baseline_spec().len() && (#[trigger] baseline_spec()[k]).1 == function
            && ends_with(normalize_sep(path), baseline_spec()[k].0)
}

/// A Rust source outside test code and build output.
pub open spec fn scan_target(path: Seq<char>) -> bool {
    let n = normalize_sep(path);
    let parts = split_char(n, '/');
    ends_with(n, ".rs"@) && (forall|i: int|
        0 <= i < parts.len() ==> #[trigger] parts[i] != "tests"@ && parts[i] != "target"@)
        && parts.last() != "tests.rs"@
}

/// The non-empty pieces, in order.
pub open spec fn nonempty_pieces(ps: Seq<Seq<char>>) -> Seq<Seq<char>> {
    ps.filter(|p: Seq<char>| p.len() > 0)
}

/// The new path of a rename written jj's way (`pre{old => new}post`), with
/// `\` as `/` and empty segments collapsed; or the message for a notation
/// that is not one.
pub open spec fn rename_of(p: Seq<char>) -> Result<Seq<char>, Seq<char>> {
    match find(p, "{"@) {
        None => Err("rename 表記に括りがありません: "@ + debug_str(p)),
        Some(open) => match find(p.skip(open), "}"@) {
            None => Err("rename 表記の括りが閉じていません: "@ + debug_str(p)),
            Some(ci) => {
                let close = open + ci;
                let inner = p.subrange(open + 1, close);
                match find(inner, " => "@) {
                    None => Err("rename 表記に \" => \" がありません: "@ + debug_str(p)),
                    Some(a) => {
                        let moved = inner.skip(a + " => "@.len());
                        let new = p.take(open) + moved + p.skip(close + 1);
                        let joined = join(
                            nonempty_pieces(split_char(normalize_sep(trim(new)), '/')),
                            "/"@,
                        );
                        if joined.len() == 0 {
                            Err("rename 後のパスが空です: "@ + debug_str(p))
                        } else {
                            Ok(joined)
                        }
                    },
                }
            },
        },
    }
}

/// One summary line: `None` to skip, `Some(Ok(path))` for a path to scan,
/// `Some(Err(message))` for a line that cannot be read.
pub open spec fn changed_line(l: Seq<char>) -> Option<Result<Seq<char>, Seq<char>>> {
    let t = trim(l);
    if t.len() == 0 {
        None
    } else {
        match find(t, " "@) {
            None => Some(Err("jj diff --summary の行を解釈できません: "@ + debug_str(t))),
            Some(i) => {
                let status = t.take(i);
                let path = t.skip(i + 1);
                if status == "D"@ {
                    None
                } else if status == "M"@ || status == "A"@ {
                    Some(Ok(path))
                } else if status == "R"@ {
                    Some(rename_of(path))
                } else {
                    Some(Err("未知の status です: "@ + debug_str(t)))
                }
            },
        }
    }
}

/// The paths to scan of a summary, in order, or the first error.
pub open spec fn changed_of(ls: Seq<Seq<char>>) -> Result<Seq<Seq<char>>, Seq<char>>
    decreases ls.len(),
{
    if ls.len() == 0 {
        Ok(seq![])
    } else {
        match changed_of(ls.drop_last()) {
            Err(e) => Err(e),
            Ok(ps) => match changed_line(ls.last()) {
                None => Ok(ps),
                Some(Err(e)) => Err(e),
                Some(Ok(p)) => Ok(ps.push(p)),
            },
        }
    }
}

/// The mode in force is `deny` (the default is `warning`).
pub open spec fn deny_mode(config: Option<TestabilityGateConfig>) -> bool {
    match config {
        Some(c) => match c.mode {
            Some(m) => m@ == "deny"@,
            None => false,
        },
        None => false,
    }
}

/// The view of an optional config reference.
pub open spec fn opt_config(config: Option<&TestabilityGateConfig>) -> Option<TestabilityGateConfig> {
    match config {
        Some(c) => Some(*c),
        None => None,
    }
}

// ---------------------------------------------------------------------------
// Lemmas
// ---------------------------------------------------------------------------

proof fn lemma_changed_error_sticks(ls: Seq<Seq<char>>, j: int)
    requires
        0 <= j <= ls.len(),
        changed_of(ls.take(j)) is Err,
    ensures
        changed_of(ls) == changed_of(ls.take(j)),
    decreases ls.len() - j,
{
    if j < ls.len() {
        assert(ls.take(j + 1).drop_last() == ls.take(j));
        lemma_changed_error_sticks(ls, j + 1);
    } else {
        assert(ls.take(j) == ls);
    }
}

// ---------------------------------------------------------------------------
// Executable functions
// ---------------------------------------------------------------------------

/// The frozen baseline.
pub fn baseline() -> (r: Vec<(&'static str, &'static str)>)
    ensures
        r@.len() == baseline_spec().len(),
        forall|k: int|
            0 <= k < r@.len() ==> (#[trigger] r@[k]).0@ == baseline_spec()[k].0 && r@[k].1@
                == baseline_spec()[k].1,
{
    let mut r: Vec<(&'static str, &'static str)> = Vec::new();
    r.push(("src/cli-pr-monitor/src/fix_commit/abandon.rs", "parent_commit_id_is"));
    r.push(("src/cli-pr-monitor/src/runner.rs", "diff_is_empty"));
    r.push(("src/cli-push-runner/src/stages/push_jj_bookmark.rs", "working_copy_is_empty"));
    r.push(("src/cli-push-runner/src/stages/push_jj_bookmark.rs", "head_has_description"));
    r.push(("src/hooks-session-start/src/jj_helpers.rs", "fetch_head_is_recent"));
    r.push(("src/hooks-stop-quality/src/takt_subsession.rs", "meta_status_is_running"));
    r.push(("src/hooks-stop-quality/src/takt_subsession.rs", "meta_is_fresh"));
    r.push(("src/lib-telemetry/src/lib.rs", "telemetry_enabled"));
    r
}

/// The path with `\` written as `/`.
pub fn normalize(path: &str) -> (r: String)
    ensures
        r@ == normalize_sep(path@),
{
    let v = chars_of(path);
    let mut out: Vec<char> = Vec::new();
    let mut i: usize = 0;
    while i < v.len()
        invariant
            i <= v@.len(),
            out@ == normalize_sep(v@.subrange(0, i as int)),
        decreases v@.len() - i,
    {
        let c = if v[i] == '\\' {
            '/'
        } else {
            v[i]
        };
        out.push(c);
        assert(normalize_sep(v@.subrange(0, i + 1)) == normalize_sep(v@.subrange(0, i as int)).push(
            c,
        ));
        i += 1;
    }
    assert(v@.subrange(0, v@.len() as int) == v@);
    string_of(&out)
}

/// Whether `path` is a Rust source to scan: not under a `tests` or `target`
/// directory and not a `tests.rs` module.
pub fn is_scan_target(path: &str) -> (b: bool)
    ensures
        b == scan_target(path@),
{
    let n = normalize(path);
    let nv = chars_of(n.as_str());
    let rs = chars_of(".rs");
    assert(nv@.subrange(0, nv@.len() as int) == nv@);
    if !span_ends_with(&nv, 0, nv.len(), &rs) {
        return false;
    }
    let parts = split_on_char(&nv, '/');
    let ghost ps = vviews(parts@);
    proof {
        lemma_split_char_nonempty(nv@, '/', 0, 0);
    }
    let tests = chars_of("tests");
    let target = chars_of("target");
    let tests_rs = chars_of("tests.rs");
    let mut k: usize = 0;
    while k < parts.len()
        invariant
            k <= parts@.len(),
            ps == vviews(parts@),
            ps == split_char(normalize_sep(path@), '/'),
            tests@ == "tests"@,
            target@ == "target"@,
            forall|i: int| 0 <= i < k ==> #[trigger] ps[i] != "tests"@ && ps[i] != "target"@,
        decreases parts@.len() - k,
    {
        if chars_eq(parts[k].as_slice(), &tests) || chars_eq(parts[k].as_slice(), &target) {
            assert(ps[k as int] == "tests"@ || ps[k as int] == "target"@);
            return false;
        }
        k += 1;
    }
    assert(ps.last() == parts@[parts@.len() - 1]@);
    !chars_eq(parts[parts.len() - 1].as_slice(), &tests_rs)
}

/// Whether the finding at `path` for `function` is in the baseline.
pub fn is_baselined(path: &str, function: &str) -> (b: bool)
    ensures
        b == baselined(path@, function@),
{
    let n = normalize(path);
    let nv = chars_of(n.as_str());
    let fv = chars_of(function);
    let base = baseline();
    assert(nv@.subrange(0, nv@.len() as int) == nv@);
    let mut k: usize = 0;
    while k < base.len()
        invariant
            k <= base@.len(),
            base@.len() == baseline_spec().len(),
            forall|j: int|
                0 <= j < base@.len() ==> (#[trigger] base@[j]).0@ == baseline_spec()[j].0
                    && base@[j].1@ == baseline_spec()[j].1,
            nv@ == normalize_sep(path@),
            nv@.subrange(0, nv@.len() as int) == nv@,
            fv@ == function@,
            forall|j: int|
                0 <= j < k ==> !((#[trigger] baseline_spec()[j]).1 == function@ && ends_with(
                    normalize_sep(path@),
                    baseline_spec()[j].0,
                )),
        decreases base@.len() - k,
    {
        let (file, name) = base[k];
        let name_v = chars_of(name);
        let file_v = chars_of(file);
        if chars_eq(&name_v, &fv) && span_ends_with(&nv, 0, nv.len(), &file_v) {
            assert(baseline_spec()[k as int].1 == function@);
            return true;
        }
        k += 1;
    }
    false
}

/// The new path of a jj rename notation (`pre{old => new}post`).
pub fn rename_target(path: &str) -> (r: Result<String, String>)
    ensures
        match r {
            Ok(p) => rename_of(path@) == Ok::<Seq<char>, Seq<char>>(p@),
            Err(e) => rename_of(path@) == Err::<Seq<char>, Seq<char>>(e@),
        },
{
    let v = chars_of(path);
    assert(v@.subrange(0, v@.len() as int) == v@);
    let ob = chars_of("{");
    let cb = chars_of("}");
    let arrow = chars_of(" => ");
    proof {
        reveal_strlit("{");
        reveal_strlit("}");
    }
    let open = match find_from_exec(&v, v.len(), &ob, 0) {
        None => {
            let q = debug_quote(path);
            return Err(concat_str("rename 表記に括りがありません: ", q.as_str()));
        },
        Some(o) => o,
    };
    proof {
        lemma_find_from(v@, ob@, 0);
    }
    let mut tail: Vec<char> = Vec::new();
    append_span(&mut tail, &v, open, v.len());
    assert(tail@ == v@.skip(open as int));
    assert(tail@.subrange(0, tail@.len() as int) == tail@);
    let ci = match find_from_exec(&tail, tail.len(), &cb, 0) {
        None => {
            let q = debug_quote(path);
            return Err(concat_str("rename 表記の括りが閉じていません: ", q.as_str()));
        },
        Some(c) => c,
    };
    proof {
        lemma_find_from(tail@, cb@, 0);
        assert(tail@[0] == '{');
        if ci == 0 {
            assert(tail@.subrange(0, 1)[0] == '}');
        }
    }
    let close = open + ci;
    let mut inner: Vec<char> = Vec::new();
    append_span(&mut inner, &v, open + 1, close);
    assert(inner@.subrange(0, inner@.len() as int) == inner@);
    let a = match find_from_exec(&inner, inner.len(), &arrow, 0) {
        None => {
            let q = debug_quote(path);
            return Err(concat_str("rename 表記に \" => \" がありません: ", q.as_str()));
        },
        Some(a) => a,
    };
    proof {
        lemma_find_from(inner@, arrow@, 0);
    }
    let mut new: Vec<char> = Vec::new();
    append_span(&mut new, &v, 0, open);
    append_span(&mut new, &inner, a + arrow.len(), inner.len());
    append_span(&mut new, &v, close + 1, v.len());
    assert(inner@.subrange(a + arrow@.len(), inner@.len() as int) == inner@.skip(
        a + arrow@.len(),
    ));
    assert(v@.subrange(0, open as int) == v@.take(open as int));
    assert(v@.subrange(close + 1, v@.len() as int) == v@.skip(close + 1));
    let (ta, tb) = trim_span(&new, 0, new.len());
    assert(new@.subrange(0, new@.len() as int) == new@);
    let trimmed = string_of_span(&new, ta, tb);
    let norm = normalize(trimmed.as_str());
    let nv = chars_of(norm.as_str());
    let pieces = split_on_char(&nv, '/');
    let ghost ps = vviews(pieces@);
    let ghost pred = |p: Seq<char>| p.len() > 0;
    let mut kept: Vec<String> = Vec::new();
    let mut k: usize = 0;
    while k < pieces.len()
        invariant
            k <= pieces@.len(),
            ps == vviews(pieces@),
            pred == (|p: Seq<char>| p.len() > 0),
            views(kept@) == ps.take(k as int).filter(pred),
        decreases pieces@.len() - k,
    {
        proof {
            assert(ps.take(k + 1).drop_last() == ps.take(k as int));
            assert(ps.take(k + 1).last() == pieces@[k as int]@);
            assert(ps.take(k + 1).filter(pred) == if pred(pieces@[k as int]@) {
                ps.take(k as int).filter(pred).push(pieces@[k as int]@)
            } else {
                ps.take(k as int).filter(pred)
            }) by {
                reveal_with_fuel(Seq::filter, 1);
            }
        }
        if pieces[k].len() > 0 {
            let s = string_of(pieces[k].as_slice());
            let ghost before = kept@;
            kept.push(s);
            assert(views(kept@) == views(before).push(pieces@[k as int]@));
        }
        k += 1;
    }
    assert(ps.take(pieces@.len() as int) == ps);
    let joined = join_strings(kept.as_slice(), "/");
    if joined.as_str().is_empty() {
        let q = debug_quote(path);
        return Err(concat_str("rename 後のパスが空です: ", q.as_str()));
    }
    Ok(joined)
}

/// The paths of the changed Rust candidates in a `jj diff --summary`:
/// modified and added paths as written, the new path of a rename; deleted
/// files are left out. An unreadable line, an unknown status or a rename
/// notation that cannot be read is an error.
pub fn changed_paths(summary: &str) -> (r: Result<Vec<String>, String>)
    ensures
        match r {
            Ok(v) => changed_of(lines(summary@)) == Ok::<Seq<Seq<char>>, Seq<char>>(views(v@)),
            Err(e) => changed_of(lines(summary@)) == Err::<Seq<Seq<char>>, Seq<char>>(e@),
        },
{
    let ls = split_lines(summary);
    let ghost ln = lines(summary@);
    let space = chars_of(" ");
    let d = chars_of("D");
    let m = chars_of("M");
    let a = chars_of("A");
    let rr = chars_of("R");
    let mut out: Vec<String> = Vec::new();
    assert(views(out@) == Seq::<Seq<char>>::empty());
    let mut i: usize = 0;
    while i < ls.len()
        invariant
            i <= ls@.len(),
            ln == vviews(ls@),
            ln == lines(summary@),
            space@ == " "@,
            d@ == "D"@,
            m@ == "M"@,
            a@ == "A"@,
            rr@ == "R"@,
            changed_of(ln.take(i as int)) == Ok::<Seq<Seq<char>>, Seq<char>>(views(out@)),
        decreases ls@.len() - i,
    {
        let l = &ls[i];
        proof {
            assert(ln.take(i + 1).drop_last() == ln.take(i as int));
            assert(ln.take(i + 1).last() == l@);
            assert(l@.subrange(0, l@.len() as int) == l@);
        }
        let (ta, tb) = trim_span(l.as_slice(), 0, l.len());
        if ta < tb {
            let t = string_of_span(l.as_slice(), ta, tb);
            let tv = chars_of(t.as_str());
            assert(tv@.subrange(0, tv@.len() as int) == tv@);
            match find_from_exec(&tv, tv.len(), &space, 0) {
                None => {
                    let q = debug_quote(t.as_str());
                    let e = concat_str("jj diff --summary の行を解釈できません: ", q.as_str());
                    proof {
                        lemma_changed_error_sticks(ln, i + 1);
                    }
                    return Err(e);
                },
                Some(sp) => {
                    proof {
                        reveal_strlit(" ");
                        lemma_find_from(tv@, space@, 0);
                    }
                    let mut status: Vec<char> = Vec::new();
                    append_span(&mut status, &tv, 0, sp);
                    assert(tv@.subrange(0, sp as int) == tv@.take(sp as int));
                    let path = string_of_span(&tv, sp + 1, tv.len());
                    assert(tv@.subrange(sp + 1, tv@.len() as int) == tv@.skip(sp + 1));
                    if chars_eq(&status, &d) {
                    } else if chars_eq(&status, &m) || chars_eq(&status, &a) {
                        let ghost before = out@;
                        out.push(path);
                        assert(views(out@) == views(before).push(out@.last()@));
                    } else if chars_eq(&status, &rr) {
                        match rename_target(path.as_str()) {
                            Ok(p) => {
                                let ghost before = out@;
                                out.push(p);
                                assert(views(out@) == views(before).push(out@.last()@));
                            },
                            Err(e) => {
                                proof {
                                    lemma_changed_error_sticks(ln, i + 1);
                                }
                                return Err(e);
                            },
                        }
                    } else {
                        let q = debug_quote(t.as_str());
                        let e = concat_str("未知の status です: ", q.as_str());
                        proof {
                            lemma_changed_error_sticks(ln, i + 1);
                        }
                        return Err(e);
                    }
                },
            }
        }
        i += 1;
    }
    assert(ln.take(ls@.len() as int) == ln);
    Ok(out)
}

/// Whether the mode in force is `deny`.
pub fn is_deny(config: Option<&TestabilityGateConfig>) -> (b: bool)
    ensures
        b == deny_mode(opt_config(config)),
{
    match config {
        Some(c) => match &c.mode {
            Some(m) => {
                let mv = chars_of(m.as_str());
                let dv = chars_of("deny");
                chars_eq(&mv, &dv)
            },
            None => false,
        },
        None => false,
    }
}

/// Whether the push may go on when the scan could not be completed: only
/// in `warning` mode.
pub fn scan_incomplete(config: Option<&TestabilityGateConfig>, reason: &str, detail: &str) -> (b:
    bool)
    ensures
        b == !deny_mode(opt_config(config)),
{
    !is_deny(config)
}

/// A firing as a spec value: (id, blocks, reason).
pub open spec fn firing_view(f: Firing) -> (Seq<char>, bool, Option<Seq<char>>) {
    (
        f.id@,
        f.block,
        match f.reason {
            Some(r) => Some(r@),
            None => None,
        },
    )
}

/// The firings as spec values.
pub open spec fn firing_views(fs: Seq<Firing>) -> Seq<(Seq<char>, bool, Option<Seq<char>>)> {
    fs.map_values(|f: Firing| firing_view(f))
}

/// The firing of a scan that could not be completed, with its reason label.
pub open spec fn incomplete_firing(reason: Seq<char>, deny: bool) -> (
    Seq<char>,
    bool,
    Option<Seq<char>>,
) {
    ("testability_gate:scan-incomplete"@, deny, Some(reason))
}

/// One firing per violation.
pub open spec fn violation_firings(n: nat, deny: bool) -> Seq<(Seq<char>, bool, Option<Seq<char>>)> {
    Seq::new(n, |_i: int| ("testability_gate:violation"@, deny, None::<Seq<char>>))
}

/// The firing to record for a scan that could not be completed: it blocks
/// in `deny` mode and warns otherwise; `reason` is its label.
pub fn scan_incomplete_firing(config: Option<&TestabilityGateConfig>, reason: &str) -> (f: Firing)
    ensures
        firing_view(f) == incomplete_firing(reason@, deny_mode(opt_config(config))),
{
    Firing {
        id: owned("testability_gate:scan-incomplete"),
        block: is_deny(config),
        reason: Some(owned(reason)),
    }
}

/// The firings to record for the findings: one per violation, blocking in
/// `deny` mode and warning otherwise.
pub fn report_firings(config: Option<&TestabilityGateConfig>, violations: &[Violation]) -> (r: Vec<
    Firing,
>)
    ensures
        firing_views(r@) == violation_firings(
            violations@.len(),
            deny_mode(opt_config(config)),
        ),
{
    let deny = is_deny(config);
    let mut r: Vec<Firing> = Vec::new();
    let mut k: usize = 0;
    while k < violations.len()
        invariant
            k <= violations@.len(),
            deny == deny_mode(opt_config(config)),
            firing_views(r@) == violation_firings(k as nat, deny),
        decreases violations@.len() - k,
    {
        let ghost before = r@;
        r.push(Firing { id: owned("testability_gate:violation"), block: deny, reason: None });
        assert(firing_views(r@) =~= violation_firings((k + 1) as nat, deny)) by {
            assert(firing_views(r@) =~= firing_views(before).push(
                ("testability_gate:violation"@, deny, None::<Seq<char>>),
            ));
        }
        k += 1;
    }
    r
}

/// Whether the push may go on with these findings: with none, or in
/// `warning` mode.
pub fn report(config: Option<&TestabilityGateConfig>, violations: &[Violation]) -> (b: bool)
    ensures
        b == (violations@.len() == 0 || !deny_mode(opt_config(config))),
{
    if violations.len() == 0 {
        return true;
    }
    !is_deny(config)
}

/// The findings name non-baselined functions of scan targets among `paths`.
pub open spec fn scan_sound(paths: Seq<String>, found: Seq<Violation>) -> bool {
    forall|k: int|
        0 <= k < found.len() ==> !baselined((#[trigger] found[k]).file@, found[k].function@)
            && exists|j: int|
            0 <= j < paths.len() && scan_target(paths[j]@) && found[k].file@ == normalize_sep(
                #[trigger] paths[j]@,
            )
}

/// `p` could be read through `read`, `scan` read its source into a model
/// of its items, and the detector found in it only functions that are
/// in the baseline.
pub open spec fn scanned_clean<
    R: Fn(&str) -> Option<String>,
    S: Fn(&str) -> Result<Vec<ItemModel>, String>,
>(read: R, scan: S, p: Seq<char>) -> bool {
    exists|a: &str, src: String, b: &str, found: Vec<ItemModel>|
        a@ == p && b@ == src@ && #[trigger] call_ensures(read, (a,), Some(src)) && #[trigger]
        call_ensures(scan, (b,), Ok::<Vec<ItemModel>, String>(found)) && forall|m: int|
            0 <= m < items_findings(found@).len() ==> baselined(
                p,
                (#[trigger] items_findings(found@)[m]).0,
            )
}

/// Whatever `read` gives for `p` is its source, and whatever model `scan`
/// gives of that source, the detector's findings in it are in the baseline.
pub open spec fn always_clean<
    R: Fn(&str) -> Option<String>,
    S: Fn(&str) -> Result<Vec<ItemModel>, String>,
>(read: R, scan: S, p: Seq<char>) -> bool {
    forall|a: &str, got: Option<String>|
        a@ == p && #[trigger] call_ensures(read, (a,), got) ==> match got {
            None => false,
            Some(src) => forall|b: &str, res: Result<Vec<ItemModel>, String>|
                b@ == src@ && #[trigger] call_ensures(scan, (b,), res) ==> match res {
                    Err(_) => false,
                    Ok(found) => forall|m: int|
                        0 <= m < items_findings(found@).len() ==> baselined(
                            p,
                            (#[trigger] items_findings(found@)[m]).0,
                        ),
                },
        }
}

/// Every scan target among `paths` is clean whatever the closures give.
pub open spec fn all_clean<
    R: Fn(&str) -> Option<String>,
    S: Fn(&str) -> Result<Vec<ItemModel>, String>,
>(read: R, scan: S, paths: Seq<Seq<char>>) -> bool {
    forall|j: int|
        0 <= j < paths.len() && scan_target(#[trigger] paths[j]) ==> always_clean(
            read,
            scan,
            paths[j],
        )
}

/// A violation as a spec value: (file, function, line).
pub open spec fn violation_view(v: Violation) -> (Seq<char>, Seq<char>, usize) {
    (v.file@, v.function@, v.line)
}

/// The violations as spec values.
pub open spec fn violation_views(vs: Seq<Violation>) -> Seq<(Seq<char>, Seq<char>, usize)> {
    vs.map_values(|v: Violation| violation_view(v))
}

/// The findings of `p` outside the baseline, in order, as violations.
pub open spec fn kept_findings(p: Seq<char>, fs: Seq<(Seq<char>, usize)>) -> Seq<
    (Seq<char>, Seq<char>, usize),
>
    decreases fs.len(),
{
    if fs.len() == 0 {
        seq![]
    } else {
        kept_findings(p, fs.drop_last()) + if baselined(p, fs.last().0) {
            seq![]
        } else {
            seq![(normalize_sep(p), fs.last().0, fs.last().1)]
        }
    }
}

/// The violations of one path, given what `read` gave for it and what
/// `scan` gave for its source.
pub open spec fn path_findings(
    p: Seq<char>,
    got: Option<String>,
    res: Result<Vec<ItemModel>, String>,
) -> Seq<(Seq<char>, Seq<char>, usize)> {
    if !scan_target(p) {
        seq![]
    } else {
        match got {
            None => seq![],
            Some(_) => match res {
                Ok(fs) => kept_findings(p, items_findings(fs@)),
                Err(_) => seq![],
            },
        }
    }
}

/// The entry for one path in the list of files that could not be scanned.
pub open spec fn path_skips(
    p: Seq<char>,
    got: Option<String>,
    res: Result<Vec<ItemModel>, String>,
) -> Seq<Seq<char>> {
    if !scan_target(p) {
        seq![]
    } else {
        match got {
            None => seq![p + " (読み込めません)"@],
            Some(_) => match res {
                Ok(_) => seq![],
                Err(e) => seq![p + " ("@ + e@ + ")"@],
            },
        }
    }
}

/// The violations of the first `n` paths.
pub open spec fn findings_upto(
    paths: Seq<Seq<char>>,
    gots: Seq<Option<String>>,
    ress: Seq<Result<Vec<ItemModel>, String>>,
    n: int,
) -> Seq<(Seq<char>, Seq<char>, usize)>
    decreases n,
{
    if n <= 0 {
        seq![]
    } else {
        findings_upto(paths, gots, ress, n - 1) + path_findings(
            paths[n - 1],
            gots[n - 1],
            ress[n - 1],
        )
    }
}

/// The unscannable-file entries of the first `n` paths.
pub open spec fn skips_upto(
    paths: Seq<Seq<char>>,
    gots: Seq<Option<String>>,
    ress: Seq<Result<Vec<ItemModel>, String>>,
    n: int,
) -> Seq<Seq<char>>
    decreases n,
{
    if n <= 0 {
        seq![]
    } else {
        skips_upto(paths, gots, ress, n - 1) + path_skips(paths[n - 1], gots[n - 1], ress[n - 1])
    }
}

/// `got` is something `read` may give for `p` when `p` is a scan target,
/// and `res` something `scan` may give for the source it holds.
pub open spec fn outcome_of<
    R: Fn(&str) -> Option<String>,
    S: Fn(&str) -> Result<Vec<ItemModel>, String>,
>(
    read: R,
    scan: S,
    p: Seq<char>,
    got: Option<String>,
    res: Result<Vec<ItemModel>, String>,
) -> bool {
    scan_target(p) ==> (exists|a: &str| a@ == p && #[trigger] call_ensures(read, (a,), got)) && (
    got matches Some(src) ==> exists|b: &str|
        b@ == src@ && #[trigger] call_ensures(scan, (b,), res))
}

proof fn lemma_upto_push(
    paths: Seq<Seq<char>>,
    gots: Seq<Option<String>>,
    ress: Seq<Result<Vec<ItemModel>, String>>,
    g: Option<String>,
    s: Result<Vec<ItemModel>, String>,
    n: int,
)
    requires
        0 <= n <= gots.len(),
        n <= ress.len(),
    ensures
        findings_upto(paths, gots.push(g), ress.push(s), n) == findings_upto(paths, gots, ress, n),
        skips_upto(paths, gots.push(g), ress.push(s), n) == skips_upto(paths, gots, ress, n),
    decreases n,
{
    if n > 0 {
        lemma_upto_push(paths, gots, ress, g, s, n - 1);
        assert(gots.push(g)[n - 1] == gots[n - 1]);
        assert(ress.push(s)[n - 1] == ress[n - 1]);
    }
}

/// Scans the changed paths: each scan target is read through `read` and
/// `scan` gives the model of its items, in which `scan_items` finds the
/// functions that interpret I/O in place; findings in the
/// baseline are dropped. Files that could not be read or parsed are listed
/// apart. The findings, and the files that could not be scanned; when both
/// are empty, every scan target was read and held only baselined findings,
/// and both are empty when every scan target is clean whatever the
/// closures give. Exactly: for what the closures gave for each path, the
/// findings are the non-baselined findings of the targets that were read
/// and parsed, in order, and the unscannable list names, in order, each
/// target that could not be read (` (読み込めません)`) or parsed (the
/// message in brackets).
pub fn scan_changed_files<
    R: Fn(&str) -> Option<String>,
    S: Fn(&str) -> Result<Vec<ItemModel>, String>,
>(paths: &[String], read: &R, scan: &S) -> (r: (Vec<Violation>, Vec<String>))
    requires
        forall|p: &str| call_requires(*read, (p,)),
        forall|s: &str| call_requires(*scan, (s,)),
    ensures
        scan_sound(paths@, r.0@),
        r.0@.len() == 0 && r.1@.len() == 0 ==> forall|j: int|
            0 <= j < paths@.len() && scan_target(#[trigger] paths@[j]@) ==> scanned_clean(
                *read,
                *scan,
                paths@[j]@,
            ),
        all_clean(*read, *scan, views(paths@)) ==> r.0@.len() == 0 && r.1@.len() == 0,
        exists|gots: Seq<Option<String>>, ress: Seq<Result<Vec<ItemModel>, String>>|
            gots.len() == paths@.len() && ress.len() == paths@.len() && (forall|j: int|
                0 <= j < paths@.len() ==> #[trigger] outcome_of(
                    *read,
                    *scan,
                    paths@[j]@,
                    gots[j],
                    ress[j],
                )) && violation_views(r.0@) == findings_upto(
                views(paths@),
                gots,
                ress,
                paths@.len() as int,
            ) && views(r.1@) == skips_upto(views(paths@), gots, ress, paths@.len() as int),
{
    let mut violations: Vec<Violation> = Vec::new();
    let mut skipped: Vec<String> = Vec::new();
    let ghost mut gots: Seq<Option<String>> = Seq::empty();
    let ghost mut ress: Seq<Result<Vec<ItemModel>, String>> = Seq::empty();
    let mut i: usize = 0;
    while i < paths.len()
        invariant
            i <= paths@.len(),
            forall|p: &str| call_requires(*read, (p,)),
            forall|s: &str| call_requires(*scan, (s,)),
            scan_sound(paths@, violations@),
            violations@.len() == 0 && skipped@.len() == 0 ==> forall|j: int|
                0 <= j < i && scan_target(#[trigger] paths@[j]@) ==> scanned_clean(
                    *read,
                    *scan,
                    paths@[j]@,
                ),
            all_clean(*read, *scan, views(paths@)) ==> violations@.len() == 0
                && skipped@.len() == 0,
            gots.len() == i,
            ress.len() == i,
            forall|j: int|
                0 <= j < i ==> #[trigger] outcome_of(*read, *scan, paths@[j]@, gots[j], ress[j]),
            violation_views(violations@) == findings_upto(views(paths@), gots, ress, i as int),
            views(skipped@) == skips_upto(views(paths@), gots, ress, i as int),
        decreases paths@.len() - i,
    {
        let ghost v0 = violation_views(violations@);
        let ghost s0 = views(skipped@);
        let ghost mut got_i: Option<String> = vstd::pervasive::arbitrary();
        let ghost mut res_i: Result<Vec<ItemModel>, String> = vstd::pervasive::arbitrary();
        proof {
            if all_clean(*read, *scan, views(paths@)) {
                assert(views(paths@)[i as int] == paths@[i as int]@);
            }
        }
        let path = &paths[i];
        let ps: &str = path.as_str();
        if is_scan_target(ps) {
            let got = read(ps);
            let ghost got_g = got;
            assert(call_ensures(*read, (ps,), got_g));
            proof {
                got_i = got_g;
            }
            match got {
                None => {
                    let mut note = chars_of(ps);
                    append_str(&mut note, " (読み込めません)");
                    let ghost before = skipped@;
                    skipped.push(string_of(&note));
                    assert(views(skipped@) =~= views(before).push(note@));
                },
                Some(src) => {
                    let ss: &str = src.as_str();
                    let res = scan(ss);
                    let ghost res_g = res;
                    assert(call_ensures(*scan, (ss,), res_g));
                    proof {
                        res_i = res_g;
                    }
                    match res {
                        Err(e) => {
                            let mut note = chars_of(ps);
                            append_str(&mut note, " (");
                            append_str(&mut note, e.as_str());
                            append_str(&mut note, ")");
                            let ghost before = skipped@;
                            skipped.push(string_of(&note));
                            assert(views(skipped@) =~= views(before).push(note@));
                        },
                        Ok(items) => {
                            let ghost iv = items@;
                            let findings = scan_items(items);
                            let ghost fv = finding_views(findings@);
                            assert(fv == items_findings(iv));
                            proof {
                                if all_clean(*read, *scan, views(paths@)) {
                                    assert(scan_target(views(paths@)[i as int]));
                                    assert(always_clean(*read, *scan, ps@));
                                    assert(call_ensures(*read, (ps,), got_g));
                                    assert(call_ensures(*scan, (ss,), res_g));
                                }
                            }
                            let ghost vlen0 = violations@.len();
                            let mut f: usize = 0;
                            while f < findings.len()
                                invariant
                                    f <= findings@.len(),
                                    i < paths@.len(),
                                    ps@ == paths@[i as int]@,
                                    scan_target(ps@),
                                    scan_sound(paths@, violations@),
                                    violations@.len() >= vlen0,
                                    violations@.len() == vlen0 ==> forall|m: int|
                                        0 <= m < f ==> baselined(
                                            ps@,
                                            #[trigger] fv[m].0,
                                        ),
                                    all_clean(*read, *scan, views(paths@)) ==> vlen0 == 0
                                        && skipped@.len() == 0 && violations@.len() == 0
                                        && forall|m: int|
                                        0 <= m < fv.len() ==> baselined(
                                            ps@,
                                            #[trigger] fv[m].0,
                                        ),
                                    violation_views(violations@) == v0 + kept_findings(
                                        ps@,
                                        fv.take(f as int),
                                    ),
                                    fv == finding_views(findings@),
                                decreases findings@.len() - f,
                            {
                                assert(fv.take(f + 1).drop_last() == fv.take(f as int));
                                assert(fv.take(f + 1).last() == fv[f as int]);
                                let name = &findings[f].function;
                                let line = &findings[f].line;
                                if !is_baselined(ps, name.as_str()) {
                                    let v = Violation {
                                        file: normalize(ps),
                                        function: name.clone(),
                                        line: *line,
                                    };
                                    let ghost before = violations@;
                                    violations.push(v);
                                    assert(violation_views(violations@) =~= violation_views(
                                        before,
                                    ).push(violation_view(v)));
                                    proof {
                                        assert forall|k: int|
                                            0 <= k < violations@.len() implies !baselined(
                                            (#[trigger] violations@[k]).file@,
                                            violations@[k].function@,
                                        ) && exists|j: int|
                                            0 <= j < paths@.len() && scan_target(paths@[j]@)
                                                && violations@[k].file@ == normalize_sep(
                                                #[trigger] paths@[j]@,
                                            ) by {
                                            if k < before.len() {
                                                assert(violations@[k] == before[k]);
                                            } else {
                                                lemma_normalize_idempotent(ps@);
                                                assert(violations@[k].file@ == normalize_sep(
                                                    paths@[i as int]@,
                                                ));
                                            }
                                        }
                                    }
                                }
                                f += 1;
                            }
                            assert(fv.take(fv.len() as int) == fv);
                            proof {
                                if violations@.len() == 0 && skipped@.len() == 0 {
                                    assert(scanned_clean(*read, *scan, paths@[i as int]@));
                                }
                            }
                        },
                    }
                },
            }
        }
        proof {
            assert(outcome_of(*read, *scan, paths@[i as int]@, got_i, res_i));
            assert(violation_views(violations@) == v0 + path_findings(
                paths@[i as int]@,
                got_i,
                res_i,
            ));
            assert(views(skipped@) == s0 + path_skips(paths@[i as int]@, got_i, res_i));
            assert(views(paths@)[i as int] == paths@[i as int]@);
            lemma_upto_push(views(paths@), gots, ress, got_i, res_i, i as int);
            let old_gots = gots;
            let old_ress = ress;
            gots = gots.push(got_i);
            ress = ress.push(res_i);
            assert forall|j: int|
                0 <= j < i + 1 implies #[trigger] outcome_of(
                *read,
                *scan,
                paths@[j]@,
                gots[j],
                ress[j],
            ) by {
                if j < i {
                    assert(outcome_of(*read, *scan, paths@[j]@, old_gots[j], old_ress[j]));
                }
            }
        }
        i += 1;
    }
    (violations, skipped)
}

/// The stage is switched on.
pub open spec fn gate_on(config: Option<TestabilityGateConfig>) -> bool {
    match config {
        Some(c) => c.enabled == Some(true),
        None => false,
    }
}

/// Runs the stage over the PR range: `diff_summary` gives the range's
/// `jj diff --summary`, `read` a file's source and `scan` the model of its
/// items, which the detector (`scan_items`) judges.
/// Whether the push may go on, and the telemetry firings to record (none
/// when the stage is off or overridden; otherwise one per violation, and one
/// `scan-incomplete` with the label `diff-failed`, `unparsable-status` or
/// `files-unscannable` when the scan could not be completed; each blocks in
/// `deny` mode and warns otherwise). The push goes on always when the stage
/// is off, overridden or
/// in `warning` mode. In `deny` mode a summary that could not be had or
/// read stops the push, and the push goes on only when every changed scan
/// target was read and held only baselined findings; it does go on when
/// every changed scan target is clean whatever the closures give.
#[verifier::spinoff_prover]
#[verifier::rlimit(60)]
pub fn run_testability_gate<
    F: FnOnce(&str) -> Result<String, String>,
    R: Fn(&str) -> Option<String>,
    S: Fn(&str) -> Result<Vec<ItemModel>, String>,
>(
    config: Option<&TestabilityGateConfig>,
    pr_range: &str,
    override_active: bool,
    diff_summary: F,
    read: &R,
    scan: &S,
) -> (r: (bool, Vec<Firing>))
    requires
        call_requires(diff_summary, (pr_range,)),
        forall|p: &str| call_requires(*read, (p,)),
        forall|s: &str| call_requires(*scan, (s,)),
    ensures
        !gate_on(opt_config(config)) ==> r.0 && r.1@.len() == 0,
        override_active ==> r.0 && r.1@.len() == 0,
        !deny_mode(opt_config(config)) ==> r.0,
        gate_on(opt_config(config)) && !override_active ==> exists|out: Result<String, String>|
            call_ensures(diff_summary, (pr_range,), out) && match out {
                Err(_) => (deny_mode(opt_config(config)) ==> !r.0) && firing_views(r.1@) == seq![
                    incomplete_firing("diff-failed"@, deny_mode(opt_config(config))),
                ],
                Ok(summary) => match changed_of(lines(summary@)) {
                    Err(_) => (deny_mode(opt_config(config)) ==> !r.0) && firing_views(r.1@)
                        == seq![
                        incomplete_firing("unparsable-status"@, deny_mode(opt_config(config))),
                    ],
                    Ok(ps) => (deny_mode(opt_config(config)) ==> (r.0 ==> forall|j: int|
                        0 <= j < ps.len() && scan_target(#[trigger] ps[j]) ==> scanned_clean(
                            *read,
                            *scan,
                            ps[j],
                        )) && (all_clean(*read, *scan, ps) ==> r.0)) && exists|
                        gots: Seq<Option<String>>,
                        ress: Seq<Result<Vec<ItemModel>, String>>,
                    |
                        gots.len() == ps.len() && ress.len() == ps.len() && (forall|j: int|
                            0 <= j < ps.len() ==> #[trigger] outcome_of(
                                *read,
                                *scan,
                                ps[j],
                                gots[j],
                                ress[j],
                            )) && (deny_mode(opt_config(config)) ==> (r.0 <==> findings_upto(
                            ps,
                            gots,
                            ress,
                            ps.len() as int,
                        ).len() == 0 && skips_upto(ps, gots, ress, ps.len() as int).len() == 0))
                            && firing_views(r.1@) == violation_firings(
                            findings_upto(ps, gots, ress, ps.len() as int).len(),
                            deny_mode(opt_config(config)),
                        ) + if skips_upto(ps, gots, ress, ps.len() as int).len() > 0 {
                            seq![
                                incomplete_firing(
                                    "files-unscannable"@,
                                    deny_mode(opt_config(config)),
                                ),
                            ]
                        } else {
                            seq![]
                        },
                },
            },
{
    let enabled = match config {
        Some(c) => match c.enabled {
            Some(e) => e,
            None => false,
        },
        None => false,
    };
    if !enabled {
        return (true, Vec::new());
    }
    if override_active {
        return (true, Vec::new());
    }
    let out = diff_summary(pr_range);
    let ghost out_g = out;
    assert(call_ensures(diff_summary, (pr_range,), out_g));
    let summary = match out {
        Ok(s) => s,
        Err(_) => {
            let b = scan_incomplete(config, "diff-failed", "jj diff --summary 失敗");
            let mut fs: Vec<Firing> = Vec::new();
            fs.push(scan_incomplete_firing(config, "diff-failed"));
            assert(firing_views(fs@) =~= seq![
                incomplete_firing("diff-failed"@, deny_mode(opt_config(config))),
            ]);
            return (b, fs);
        },
    };
    let paths = match changed_paths(summary.as_str()) {
        Ok(p) => p,
        Err(_) => {
            let b = scan_incomplete(config, "unparsable-status", "変更ファイルを読み取れません");
            let mut fs: Vec<Firing> = Vec::new();
            fs.push(scan_incomplete_firing(config, "unparsable-status"));
            assert(firing_views(fs@) =~= seq![
                incomplete_firing("unparsable-status"@, deny_mode(opt_config(config))),
            ]);
            return (b, fs);
        },
    };
    let (violations, skipped) = scan_changed_files(paths.as_slice(), read, scan);
    assert(violation_views(violations@).len() == violations@.len());
    assert(views(skipped@).len() == skipped@.len());
    let ghost ps = views(paths@);
    let ghost (gots, ress) = choose|
        gots: Seq<Option<String>>,
        ress: Seq<Result<Vec<ItemModel>, String>>,
    |
        gots.len() == paths@.len() && ress.len() == paths@.len() && (forall|j: int|
            0 <= j < paths@.len() ==> #[trigger] outcome_of(
                *read,
                *scan,
                paths@[j]@,
                gots[j],
                ress[j],
            )) && violation_views(violations@) == findings_upto(
            ps,
            gots,
            ress,
            paths@.len() as int,
        ) && views(skipped@) == skips_upto(ps, gots, ress, paths@.len() as int);
    assert forall|j: int| 0 <= j < ps.len() implies #[trigger] outcome_of(
        *read,
        *scan,
        ps[j],
        gots[j],
        ress[j],
    ) by {
        assert(ps[j] == paths@[j]@);
        assert(outcome_of(*read, *scan, paths@[j]@, gots[j], ress[j]));
    }
    let violations_ok = report(config, violations.as_slice());
    let mut fs = report_firings(config, violations.as_slice());
    if skipped.len() > 0 {
        let ghost before = fs@;
        fs.push(scan_incomplete_firing(config, "files-unscannable"));
        assert(firing_views(fs@) =~= firing_views(before) + seq![
            incomplete_firing("files-unscannable"@, deny_mode(opt_config(config))),
        ]);
    } else {
        assert(firing_views(fs@) =~= firing_views(fs@) + seq![]);
    }
    let b = if skipped.len() == 0 {
        violations_ok
    } else {
        let skipped_ok = scan_incomplete(
            config,
            "files-unscannable",
            "走査できないファイルがあります",
        );
        violations_ok && skipped_ok
    };
    proof {
        assert(ps.len() == paths@.len());
        assert(changed_of(lines(summary@)) == Ok::<Seq<Seq<char>>, Seq<char>>(ps));
        if deny_mode(opt_config(config)) {
            assert(b <==> findings_upto(ps, gots, ress, ps.len() as int).len() == 0 && skips_upto(
                ps,
                gots,
                ress,
                ps.len() as int,
            ).len() == 0);
        }
    }
    (b, fs)
}

/// Writing `\` as `/` twice changes nothing more, and the baseline judges a
/// normalized path as it judges the path.
proof fn lemma_normalize_idempotent(p: Seq<char>)
    ensures
        normalize_sep(normalize_sep(p)) == normalize_sep(p),
{
    assert(normalize_sep(normalize_sep(p)) =~= normalize_sep(p));
}

} // verus!
