//! The diff the review reads: the `[diff]` command run over the PR range,
//! and the check that this diff covers every file the range changes (a
//! narrower diff would let unreviewed changes through).
use vstd::prelude::*;

use crate::config::{DiffConfig, DEFAULT_DIFF_TIMEOUT_SECS};

use crate::text::{
    append_all, append_span, append_str, chars_eq, chars_of, find, find_from_exec, is_ws,
    is_whitespace, join, lemma_find_from, lines, occurs_at, split_lines, starts_with,
    span_starts_with, string_of, string_of_span, trim, trim_span, views, vviews,
};

verus! {

// ---------------------------------------------------------------------------
// Types
// ---------------------------------------------------------------------------

/// What the diff stage produced.
#[derive(Debug, PartialEq, Eq)]
pub enum DiffResult {
    /// The diff has content and was written out.
    HasContent,
    /// The diff is empty: nothing to review.
    Empty,
    /// The command or the write failed.
    Error,
}

// ---------------------------------------------------------------------------
// Specifications
// ---------------------------------------------------------------------------

/// `s` with every occurrence of `pat` (non-empty) replaced by `rep`, left to
/// right (`str::replace`).
pub open spec fn replace_all(s: Seq<char>, pat: Seq<char>, rep: Seq<char>) -> Seq<char>
    decreases s.len(),
{
    if pat.len() == 0 {
        s
    } else {
        match find(s, pat) {
            None => s,
            Some(i) => if 0 <= i && i + pat.len() <= s.len() {
                s.take(i) + rep + replace_all(s.skip(i + pat.len()), pat, rep)
            } else {
                s
            },
        }
    }
}

/// A path with `\` written as `/` (jj prints Windows paths with `\`).
pub open spec fn normalize_sep(p: Seq<char>) -> Seq<char> {
    p.map_values(|c: char| if c == '\\' { '/' } else { c })
}

/// Index of the last whitespace character strictly before `j`.
pub open spec fn last_ws(s: Seq<char>, j: int) -> Option<int>
    decreases j,
{
    if j <= 0 || j > s.len() {
        None
    } else if is_ws(s[j - 1]) {
        Some(j - 1)
    } else {
        last_ws(s, j - 1)
    }
}

/// One line of `jj diff --summary`: `None` for a blank line, `Some(None)`
/// for a line that cannot be read, `Some(Some(path))` for the path it names
/// (the new path of a rename or copy).
pub open spec fn summary_line(l: Seq<char>) -> Option<Option<Seq<char>>> {
    let t = trim(l);
    if t.len() == 0 {
        None
    } else if t.len() < 2 || t[1] != ' ' {
        Some(None)
    } else if t[0] == 'M' || t[0] == 'A' || t[0] == 'D' {
        let rest = trim(t.skip(2));
        if rest.len() == 0 {
            Some(None)
        } else {
            Some(Some(normalize_sep(rest)))
        }
    } else if t[0] == 'R' || t[0] == 'C' {
        let rest = trim(t.skip(2));
        match last_ws(rest, rest.len() as int) {
            None => Some(None),
            Some(i) => Some(Some(normalize_sep(rest.skip(i + 1)))),
        }
    } else {
        Some(None)
    }
}

/// The message for a summary line that cannot be read.
pub open spec fn unparseable_text(line: Seq<char>) -> Seq<char> {
    "jj diff --summary の行をパースできませんでした: "@ + line
}

/// The paths a summary names, each once in order of first mention, or the
/// message for its first line that cannot be read.
pub open spec fn summary_paths(ls: Seq<Seq<char>>) -> Result<Seq<Seq<char>>, Seq<char>>
    decreases ls.len(),
{
    if ls.len() == 0 {
        Ok(seq![])
    } else {
        match summary_paths(ls.drop_last()) {
            Err(e) => Err(e),
            Ok(ps) => match summary_line(ls.last()) {
                None => Ok(ps),
                Some(None) => Err(unparseable_text(trim(ls.last()))),
                Some(Some(p)) => if ps.contains(p) {
                    Ok(ps)
                } else {
                    Ok(ps.push(p))
                },
            },
        }
    }
}

/// The path a `diff --git a/<old> b/<new>` header names: the new one.
pub open spec fn header_path(l: Seq<char>) -> Option<Seq<char>> {
    if !starts_with(l, "diff --git "@) {
        None
    } else {
        let rest = l.skip("diff --git "@.len() as int);
        match find(rest, " b/"@) {
            None => None,
            Some(k) => Some(rest.skip(k + " b/"@.len())),
        }
    }
}

/// The paths of the `--git` headers of a diff, in order.
pub open spec fn covered_paths(ls: Seq<Seq<char>>) -> Seq<Seq<char>>
    decreases ls.len(),
{
    if ls.len() == 0 {
        seq![]
    } else {
        match header_path(ls.last()) {
            Some(p) => covered_paths(ls.drop_last()).push(p),
            None => covered_paths(ls.drop_last()),
        }
    }
}

/// Some line of the diff is a `--git` header.
pub open spec fn has_git_header(ls: Seq<Seq<char>>) -> bool {
    exists|i: int| 0 <= i < ls.len() && starts_with(#[trigger] ls[i], "diff --git "@)
}

/// The message when the PR range's files cannot be listed.
pub open spec fn unavailable_text(e: Seq<char>) -> Seq<char> {
    "PR 範囲の変更ファイル一覧を取得できません (fail-closed): "@ + e
}

/// The message for a diff without `--git` headers.
pub open spec fn no_header_text() -> Seq<char> {
    "diff に `diff --git` ヘッダがなく、収録ファイルを確認できません (fail-closed)。[diff] command に --git を付けてください"@
}

/// The message for files of the range that the diff leaves out.
pub open spec fn missing_text(missing: Seq<Seq<char>>) -> Seq<char> {
    "レビュー対象 diff が PR 範囲の変更を網羅していません。未収録: "@ + join(missing, ", "@)
}

/// The verdict of the coverage check given the summary query's outcome.
pub open spec fn coverage_verdict(diff: Seq<char>, summary: Result<Seq<char>, Seq<char>>) -> Result<
    (),
    Seq<char>,
> {
    match summary {
        Err(e) => Err(unavailable_text(e)),
        Ok(s) => match summary_paths(lines(s)) {
            Err(m) => Err(m),
            Ok(expected) => if expected.len() == 0 {
                Ok(())
            } else if !has_git_header(lines(diff)) {
                Err(no_header_text())
            } else {
                let covered = covered_paths(lines(diff));
                let missing = expected.filter(|p: Seq<char>| !covered.contains(p));
                if missing.len() == 0 {
                    Ok(())
                } else {
                    Err(missing_text(missing))
                }
            },
        },
    }
}

/// The view of a result with a string error.
pub open spec fn result_view(r: Result<(), String>) -> Result<(), Seq<char>> {
    match r {
        Ok(()) => Ok(()),
        Err(e) => Err(e@),
    }
}

/// The view of the summary query's outcome.
pub open spec fn string_result_view(r: Result<String, String>) -> Result<Seq<char>, Seq<char>> {
    match r {
        Ok(s) => Ok(s@),
        Err(e) => Err(e@),
    }
}

// ---------------------------------------------------------------------------
// Lemmas
// ---------------------------------------------------------------------------

proof fn lemma_summary_error_sticks(ls: Seq<Seq<char>>, j: int)
    requires
        0 <= j <= ls.len(),
        summary_paths(ls.take(j)) is Err,
    ensures
        summary_paths(ls) == summary_paths(ls.take(j)),
    decreases ls.len() - j,
{
    if j < ls.len() {
        assert(ls.take(j + 1).drop_last() == ls.take(j));
        lemma_summary_error_sticks(ls, j + 1);
    } else {
        assert(ls.take(j) == ls);
    }
}

// ---------------------------------------------------------------------------
// Executable functions
// ---------------------------------------------------------------------------

/// The diff command with `{{PR_RANGE}}` replaced by the PR range.
pub fn resolve_diff_command(template: &str, pr_range: &str) -> (r: String)
    ensures
        r@ == replace_all(template@, "{{PR_RANGE}}"@, pr_range@),
{
    let v = chars_of(template);
    let pat = chars_of("{{PR_RANGE}}");
    let rep = chars_of(pr_range);
    let mut out: Vec<char> = Vec::new();
    let mut pos: usize = 0;
    if pat.len() == 0 {
        return string_of(&v);
    }
    assert(v@.skip(0) == v@);
    while pos <= v.len()
        invariant
            pos <= v@.len(),
            v@ == template@,
            pat@ == "{{PR_RANGE}}"@,
            pat@.len() > 0,
            rep@ == pr_range@,
            out@ + replace_all(v@.skip(pos as int), pat@, rep@) == replace_all(v@, pat@, rep@),
        decreases v@.len() - pos,
    {
        let ghost rest = v@.skip(pos as int);
        match find_from_exec(&v, v.len(), &pat, pos) {
            None => {
                proof {
                    assert(v@.subrange(0, v@.len() as int) == v@);
                    lemma_find_from(v@, pat@, pos as int);
                    lemma_find_from(rest, pat@, 0);
                    match find(rest, pat@) {
                        Some(q) => {
                            assert(rest.subrange(q, q + pat@.len()) == v@.subrange(
                                pos + q,
                                pos + q + pat@.len(),
                            ));
                            assert(occurs_at(v@, pat@, pos + q));
                        },
                        None => {},
                    }
                    assert(find(rest, pat@) is None);
                    assert(replace_all(rest, pat@, rep@) == rest);
                }
                append_span(&mut out, &v, pos, v.len());
                assert(v@.subrange(pos as int, v@.len() as int) == rest);
                return string_of(&out);
            },
            Some(k) => {
                proof {
                    assert(v@.subrange(0, v@.len() as int) == v@);
                    lemma_find_from(v@, pat@, pos as int);
                    lemma_find_from(rest, pat@, 0);
                    assert(rest.subrange(k - pos, k - pos + pat@.len()) == v@.subrange(
                        k as int,
                        k + pat@.len(),
                    ));
                    assert(occurs_at(rest, pat@, k - pos));
                    match find(rest, pat@) {
                        Some(q) => {
                            if q < k - pos {
                                assert(rest.subrange(q, q + pat@.len()) == v@.subrange(
                                    pos + q,
                                    pos + q + pat@.len(),
                                ));
                                assert(occurs_at(v@, pat@, pos + q));
                            }
                        },
                        None => {},
                    }
                    assert(find(rest, pat@) == Some(k - pos));
                    assert(rest.take(k - pos) == v@.subrange(pos as int, k as int));
                    assert(rest.skip(k - pos + pat@.len()) == v@.skip(k + pat@.len()));
                }
                append_span(&mut out, &v, pos, k);
                append_all(&mut out, &rep);
                pos = k + pat.len();
            },
        }
    }
    string_of(&out)
}

/// `c`, or `/` for `\`.
fn normal_char(c: char) -> (r: char)
    ensures
        r == (if c == '\\' {
            '/'
        } else {
            c
        }),
{
    if c == '\\' {
        '/'
    } else {
        c
    }
}

/// `v[lo..hi]` with `\` written as `/`.
fn normalized_span(v: &[char], lo: usize, hi: usize) -> (r: String)
    requires
        lo <= hi <= v@.len(),
    ensures
        r@ == normalize_sep(v@.subrange(lo as int, hi as int)),
{
    let mut out: Vec<char> = Vec::new();
    let mut i: usize = lo;
    while i < hi
        invariant
            lo <= i <= hi <= v@.len(),
            out@ == normalize_sep(v@.subrange(lo as int, i as int)),
        decreases hi - i,
    {
        out.push(normal_char(v[i]));
        assert(normalize_sep(v@.subrange(lo as int, i + 1)) == normalize_sep(
            v@.subrange(lo as int, i as int),
        ).push(if v@[i as int] == '\\' {
            '/'
        } else {
            v@[i as int]
        }));
        i += 1;
    }
    string_of(&out)
}

/// Reads one summary line (see `summary_line`).
#[verifier::rlimit(50)]
fn parse_summary_line(l: &[char]) -> (r: Option<Option<String>>)
    ensures
        match r {
            None => summary_line(l@) is None,
            Some(None) => summary_line(l@) == Some(None::<Seq<char>>),
            Some(Some(p)) => summary_line(l@) == Some(Some(p@)),
        },
{
    assert(l@.subrange(0, l@.len() as int) == l@);
    let (a, b) = trim_span(l, 0, l.len());
    let ghost t = l@.subrange(a as int, b as int);
    if a == b {
        return None;
    }
    if b - a < 2 || l[a + 1] != ' ' {
        return Some(None);
    }
    let status = l[a];
    let (ra, rb) = trim_span(l, a + 2, b);
    assert(l@.subrange(a + 2, b as int) == t.skip(2));
    if status == 'M' || status == 'A' || status == 'D' {
        if ra == rb {
            return Some(None);
        }
        return Some(Some(normalized_span(l, ra, rb)));
    }
    if status == 'R' || status == 'C' {
        let ghost rest = l@.subrange(ra as int, rb as int);
        let mut j: usize = rb;
        while j > ra && !is_whitespace(l[j - 1])
            invariant
                ra <= j <= rb <= l@.len(),
                rest == l@.subrange(ra as int, rb as int),
                last_ws(rest, rest.len() as int) == last_ws(rest, j - ra),
            decreases j,
        {
            j -= 1;
        }
        if j == ra {
            return Some(None);
        }
        assert(rest.skip(j - ra) == l@.subrange(j as int, rb as int));
        return Some(Some(normalized_span(l, j, rb)));
    }
    Some(None)
}

/// The paths that a `jj diff --summary` output names (the new path of a
/// rename or copy, `\` written as `/`), each once; a line that cannot be
/// read makes the whole summary an error, so that a change of format is
/// never taken for "no change".
pub fn parse_summary_paths(summary: &str) -> (r: Result<Vec<String>, String>)
    ensures
        match r {
            Ok(v) => summary_paths(lines(summary@)) == Ok::<Seq<Seq<char>>, Seq<char>>(views(v@)),
            Err(e) => summary_paths(lines(summary@)) == Err::<Seq<Seq<char>>, Seq<char>>(e@),
        },
{
    let ls = split_lines(summary);
    let ghost ln = lines(summary@);
    let mut out: Vec<String> = Vec::new();
    assert(views(out@) == Seq::<Seq<char>>::empty());
    assert(ln.take(0) == Seq::<Seq<char>>::empty());
    let mut i: usize = 0;
    while i < ls.len()
        invariant
            i <= ls@.len(),
            ln == vviews(ls@),
            ln == lines(summary@),
            summary_paths(ln.take(i as int)) == Ok::<Seq<Seq<char>>, Seq<char>>(views(out@)),
        decreases ls@.len() - i,
    {
        let l = &ls[i];
        proof {
            assert(ln.take(i + 1).drop_last() == ln.take(i as int));
            assert(ln.take(i + 1).last() == l@);
        }
        match parse_summary_line(l.as_slice()) {
            None => {},
            Some(None) => {
                let (a, b) = trim_span(l.as_slice(), 0, l.len());
                assert(l@.subrange(0, l@.len() as int) == l@);
                let mut msg = chars_of("jj diff --summary の行をパースできませんでした: ");
                append_span(&mut msg, l.as_slice(), a, b);
                proof {
                    assert(summary_paths(ln.take(i + 1)) == Err::<Seq<Seq<char>>, Seq<char>>(
                        msg@,
                    ));
                    lemma_summary_error_sticks(ln, i + 1);
                }
                return Err(string_of(&msg));
            },
            Some(Some(p)) => {
                let mut seen = false;
                let mut k: usize = 0;
                while k < out.len()
                    invariant
                        k <= out@.len(),
                        seen == (exists|j: int| 0 <= j < k && out@[j]@ == p@),
                    decreases out@.len() - k,
                {
                    if out[k] == p {
                        seen = true;
                    }
                    k += 1;
                }
                proof {
                    if seen {
                        let j = choose|j: int| 0 <= j < out@.len() && out@[j]@ == p@;
                        assert(views(out@)[j] == p@);
                    }
                    if views(out@).contains(p@) {
                        let j = choose|j: int| 0 <= j < views(out@).len() && views(out@)[j]
                            == p@;
                        assert(out@[j]@ == p@);
                    }
                }
                if !seen {
                    let ghost before = out@;
                    out.push(p);
                    assert(views(out@) == views(before).push(out@.last()@));
                }
            },
        }
        i += 1;
    }
    assert(ln.take(ls@.len() as int) == ln);
    Ok(out)
}

/// The new path of a `diff --git` header line.
fn git_header_path(l: &[char]) -> (r: Option<String>)
    ensures
        match r {
            Some(p) => header_path(l@) == Some(p@),
            None => header_path(l@) is None,
        },
{
    let head = chars_of("diff --git ");
    assert(l@.subrange(0, l@.len() as int) == l@);
    if !span_starts_with(l, 0, l.len(), &head) {
        return None;
    }
    let mut rest: Vec<char> = Vec::new();
    append_span(&mut rest, l, head.len(), l.len());
    assert(rest@ == l@.skip(head@.len() as int));
    let sep = chars_of(" b/");
    assert(rest@.subrange(0, rest@.len() as int) == rest@);
    match find_from_exec(&rest, rest.len(), &sep, 0) {
        None => None,
        Some(k) => {
            proof {
                lemma_find_from(rest@, sep@, 0);
            }
            assert(rest@.subrange(k + sep@.len(), rest@.len() as int) == rest@.skip(
                k + sep@.len(),
            ));
            Some(string_of_span(&rest, k + sep.len(), rest.len()))
        },
    }
}

/// Whether the diff covers every file of the PR range. `fetch_summary`
/// gives the `jj diff --summary` of the range; a failure there, a summary
/// that cannot be read, and a diff without `--git` headers are all errors
/// (fail-closed), and so is a file of the range that the diff leaves out
/// (the message names it).
pub fn verify_diff_covers_pr_range<F: FnOnce() -> Result<String, String>>(
    diff: &str,
    fetch_summary: F,
) -> (r: Result<(), String>)
    requires
        call_requires(fetch_summary, ()),
    ensures
        exists|s: Result<String, String>|
            call_ensures(fetch_summary, (), s) && result_view(r) == coverage_verdict(
                diff@,
                string_result_view(s),
            ),
{
    let summary = fetch_summary();
    let ghost gs = summary;
    let text = match summary {
        Err(e) => {
            let r = Err(crate::text::concat_str(
                "PR 範囲の変更ファイル一覧を取得できません (fail-closed): ",
                e.as_str(),
            ));
            assert(call_ensures(fetch_summary, (), gs));
            assert(result_view(r) == coverage_verdict(diff@, string_result_view(gs)));
            return r;
        },
        Ok(t) => t,
    };
    let expected = match parse_summary_paths(text.as_str()) {
        Err(m) => {
            assert(call_ensures(fetch_summary, (), gs));
            return Err(m);
        },
        Ok(v) => v,
    };
    if expected.len() == 0 {
        assert(call_ensures(fetch_summary, (), gs));
        return Ok(());
    }
    let dl = split_lines(diff);
    let ghost ln = lines(diff@);
    let head = chars_of("diff --git ");
    let mut any_header = false;
    let mut covered: Vec<String> = Vec::new();
    let mut i: usize = 0;
    while i < dl.len()
        invariant
            i <= dl@.len(),
            ln == vviews(dl@),
            head@ == "diff --git "@,
            views(covered@) == covered_paths(ln.take(i as int)),
            any_header == (exists|j: int| 0 <= j < i && starts_with(#[trigger] ln[j], "diff --git "@)),
        decreases dl@.len() - i,
    {
        let l = &dl[i];
        proof {
            assert(ln.take(i + 1).drop_last() == ln.take(i as int));
            assert(ln.take(i + 1).last() == l@);
            assert(l@.subrange(0, l@.len() as int) == l@);
        }
        if span_starts_with(l.as_slice(), 0, l.len(), &head) {
            any_header = true;
        }
        match git_header_path(l.as_slice()) {
            Some(p) => {
                let ghost before = covered@;
                covered.push(p);
                assert(views(covered@) == views(before).push(covered@.last()@));
            },
            None => {},
        }
        i += 1;
    }
    assert(ln.take(dl@.len() as int) == ln);
    if !any_header {
        assert(!has_git_header(ln));
        assert(call_ensures(fetch_summary, (), gs));
        return Err(crate::text::owned(
            "diff に `diff --git` ヘッダがなく、収録ファイルを確認できません (fail-closed)。[diff] command に --git を付けてください",
        ));
    }
    let ghost cov = views(covered@);
    let ghost exp = views(expected@);
    let ghost pred = |p: Seq<char>| !cov.contains(p);
    let mut missing: Vec<String> = Vec::new();
    let mut k: usize = 0;
    while k < expected.len()
        invariant
            k <= expected@.len(),
            cov == views(covered@),
            exp == views(expected@),
            pred == (|p: Seq<char>| !cov.contains(p)),
            views(missing@) == exp.take(k as int).filter(pred),
        decreases expected@.len() - k,
    {
        let p = &expected[k];
        let mut found = false;
        let mut j: usize = 0;
        while j < covered.len()
            invariant
                j <= covered@.len(),
                found == (exists|q: int| 0 <= q < j && covered@[q]@ == p@),
            decreases covered@.len() - j,
        {
            if covered[j] == *p {
                found = true;
            }
            j += 1;
        }
        proof {
            if found {
                let q = choose|q: int| 0 <= q < covered@.len() && covered@[q]@ == p@;
                assert(cov[q] == p@);
            }
            if cov.contains(p@) {
                let q = choose|q: int| 0 <= q < cov.len() && cov[q] == p@;
                assert(covered@[q]@ == p@);
            }
            assert(exp.take(k + 1).drop_last() == exp.take(k as int));
            assert(exp.take(k + 1).last() == p@);
            assert(exp.take(k + 1).filter(pred) == if pred(p@) {
                exp.take(k as int).filter(pred).push(p@)
            } else {
                exp.take(k as int).filter(pred)
            }) by {
                reveal_with_fuel(Seq::filter, 1);
            }
        }
        if !found {
            let ghost before = missing@;
            missing.push(p.clone());
            assert(views(missing@) == views(before).push(p@));
        }
        k += 1;
    }
    assert(exp.take(expected@.len() as int) == exp);
    assert(call_ensures(fetch_summary, (), gs));
    if missing.len() == 0 {
        return Ok(());
    }
    let joined = crate::text::join_strings(missing.as_slice(), ", ");
    Err(crate::text::concat_str(
        "レビュー対象 diff が PR 範囲の変更を網羅していません。未収録: ",
        joined.as_str(),
    ))
}


/// The timeout in force for the diff command.
pub open spec fn diff_timeout(config: DiffConfig) -> u64 {
    match config.timeout {
        Some(t) => t,
        None => DEFAULT_DIFF_TIMEOUT_SECS,
    }
}

/// `run_cmd` ran the diff command of `config` over `pr_range` and gave `out`.
pub open spec fn ran_diff<C: FnOnce(&str, u64) -> Result<String, String>>(
    run_cmd: C,
    config: DiffConfig,
    pr_range: Seq<char>,
    out: Result<String, String>,
) -> bool {
    exists|c: &str|
        #![trigger call_ensures(run_cmd, (c, diff_timeout(config)), out)]
        c@ == replace_all(config.command@, "{{PR_RANGE}}"@, pr_range) && call_ensures(
            run_cmd,
            (c, diff_timeout(config)),
            out,
        )
}

/// The diff after the review, for the comparison that decides a re-run:
/// the diff command's output, `None` when it failed.
pub fn capture_diff_snapshot<C: FnOnce(&str, u64) -> Result<String, String>>(
    config: &DiffConfig,
    pr_range: &str,
    run_cmd: C,
) -> (r: Option<String>)
    requires
        forall|c: &str, t: u64| call_requires(run_cmd, (c, t)),
    ensures
        exists|out: Result<String, String>|
            ran_diff(run_cmd, *config, pr_range@, out) && r == match out {
                Ok(o) => Some(o),
                Err(_) => None,
            },
{
    let timeout = match config.timeout {
        Some(t) => t,
        None => DEFAULT_DIFF_TIMEOUT_SECS,
    };
    let command = resolve_diff_command(config.command.as_str(), pr_range);
    let c: &str = command.as_str();
    let out = run_cmd(c, timeout);
    let ghost go = out;
    assert(call_ensures(run_cmd, (c, timeout), go));
    assert(timeout == diff_timeout(*config));
    assert(call_ensures(run_cmd, (c, diff_timeout(*config)), go));
    assert(c@ == replace_all(config.command@, "{{PR_RANGE}}"@, pr_range@));
    assert(ran_diff(run_cmd, *config, pr_range@, go));
    match out {
        Ok(o) => Some(o),
        Err(_) => None,
    }
}

/// The diff stage: the diff command runs over the PR range through
/// `run_cmd`; its output must cover the range (checked against
/// `fetch_summary`) even when empty; an empty covering diff means nothing
/// to review; otherwise it is written to the output path through `write`.
pub fn run_diff_with<
    C: FnOnce(&str, u64) -> Result<String, String>,
    F: FnOnce() -> Result<String, String>,
    W: FnOnce(&str, &str) -> Result<(), String>,
>(config: &DiffConfig, pr_range: &str, run_cmd: C, fetch_summary: F, write: W) -> (r: DiffResult)
    requires
        forall|c: &str, t: u64| call_requires(run_cmd, (c, t)),
        call_requires(fetch_summary, ()),
        forall|p: &str, d: &str| call_requires(write, (p, d)),
    ensures
        exists|out: Result<String, String>|
            ran_diff(run_cmd, *config, pr_range@, out) && match out {
                Err(_) => r is Error,
                Ok(o) => exists|s: Result<String, String>|
                    call_ensures(fetch_summary, (), s) && if coverage_verdict(
                        o@,
                        string_result_view(s),
                    ) is Err {
                        r is Error
                    } else if o@.len() == 0 {
                        r is Empty
                    } else {
                        exists|p: &str, d: &str, w: Result<(), String>|
                            p@ == config.output_path@ && d@ == o@ && call_ensures(write, (p, d), w)
                                && (r is HasContent <==> w is Ok) && (r is Error <==> w is Err)
                    },
            },
{
    let timeout = match config.timeout {
        Some(t) => t,
        None => DEFAULT_DIFF_TIMEOUT_SECS,
    };
    let command = resolve_diff_command(config.command.as_str(), pr_range);
    let c: &str = command.as_str();
    let out = run_cmd(c, timeout);
    let ghost go = out;
    assert(call_ensures(run_cmd, (c, timeout), go));
    assert(timeout == diff_timeout(*config));
    assert(call_ensures(run_cmd, (c, diff_timeout(*config)), go));
    assert(c@ == replace_all(config.command@, "{{PR_RANGE}}"@, pr_range@));
    assert(ran_diff(run_cmd, *config, pr_range@, go));
    let output = match out {
        Err(_) => {
            return DiffResult::Error;
        },
        Ok(o) => o,
    };
    let coverage = verify_diff_covers_pr_range(output.as_str(), fetch_summary);
    let ghost gs = choose|s: Result<String, String>|
        call_ensures(fetch_summary, (), s) && result_view(coverage) == coverage_verdict(
            output@,
            string_result_view(s),
        );
    if coverage.is_err() {
        assert(coverage_verdict(output@, string_result_view(gs)) is Err);
        return DiffResult::Error;
    }
    if output.as_str().is_empty() {
        return DiffResult::Empty;
    }
    let p: &str = config.output_path.as_str();
    let d: &str = output.as_str();
    let w = write(p, d);
    let ghost gw = w;
    assert(call_ensures(write, (p, d), gw));
    match w {
        Ok(()) => DiffResult::HasContent,
        Err(_) => DiffResult::Error,
    }
}
} // verus!
