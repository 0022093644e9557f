//! Reading the verdict of takt review reports (no I/O).
//!
//! Only the first `## Result: <verdict>` line outside code fences counts; a
//! report wrapped as a whole in one fence is unwrapped one level first.
use vstd::prelude::*;

use crate::text::{
    chars_of, eq_ignore_case, eq_ignore_case_exec, lines, span_starts_with, split_lines,
    starts_with, string_of_span, trim, trim_end, trim_end_span, trim_span, trim_start,
    trim_start_span, vviews, views, chars_of_all,
};

verus! {

/// The verdict of one report.
#[derive(Debug, PartialEq, Eq)]
pub enum Verdict {
    /// `## Result: APPROVE` (any ASCII case).
    Approve,
    /// Any other value: `REJECT` or an unknown word. Unknown values block too.
    Blocking(String),
    /// No `## Result:` line: the report is not a report.
    Missing,
}

/// The prefix of the result line.
pub open spec fn result_prefix() -> Seq<char> {
    "## Result:"@
}

/// The number of backticks starting at `i`.
pub open spec fn tick_run(s: Seq<char>, i: int) -> nat
    decreases s.len() - i,
{
    if 0 <= i < s.len() && s[i] == '`' {
        1 + tick_run(s, i + 1)
    } else {
        0
    }
}

/// A fence line's backtick count (at least three, after leading whitespace).
pub open spec fn fence_ticks(l: Seq<char>) -> Option<nat> {
    let t = tick_run(trim_start(l), 0);
    if t >= 3 {
        Some(t)
    } else {
        None
    }
}

/// Every character is a backtick.
pub open spec fn all_ticks(s: Seq<char>) -> bool {
    forall|i: int| 0 <= i < s.len() ==> s[i] == '`'
}

/// Top-level fence regions `(open line, close line)` of `ls[k..]`, given the
/// currently open fence (its line and backtick count). A fence is closed only
/// by a line of backticks alone, at least as many as opened it; an unclosed
/// fence runs to `ls.len()`.
pub open spec fn regions_from(ls: Seq<Seq<char>>, k: int, open: Option<(int, nat)>) -> Seq<
    (int, int),
>
    decreases ls.len() - k,
{
    if k < 0 || k >= ls.len() {
        match open {
            Some(o) => seq![(o.0, ls.len() as int)],
            None => seq![],
        }
    } else {
        match fence_ticks(ls[k]) {
            None => regions_from(ls, k + 1, open),
            Some(t) => match open {
                None => regions_from(ls, k + 1, Some((k, t))),
                Some(o) => if t >= o.1 && all_ticks(trim(ls[k])) {
                    seq![(o.0, k)] + regions_from(ls, k + 1, None)
                } else {
                    regions_from(ls, k + 1, open)
                },
            },
        }
    }
}

/// The top-level fence regions of `ls`.
pub open spec fn fence_regions_of(ls: Seq<Seq<char>>) -> Seq<(int, int)> {
    regions_from(ls, 0, None)
}

/// The first line at or after `k` that is not blank.
pub open spec fn first_nonblank(ls: Seq<Seq<char>>, k: int) -> Option<int>
    decreases ls.len() - k,
{
    if k < 0 || k >= ls.len() {
        None
    } else if trim(ls[k]).len() > 0 {
        Some(k)
    } else {
        first_nonblank(ls, k + 1)
    }
}

/// The last line before `j` that is not blank.
pub open spec fn last_nonblank(ls: Seq<Seq<char>>, j: int) -> Option<int>
    decreases j,
{
    if j <= 0 || j > ls.len() {
        None
    } else if trim(ls[j - 1]).len() > 0 {
        Some(j - 1)
    } else {
        last_nonblank(ls, j - 1)
    }
}

/// The window of lines that is read: inside the document fence when exactly
/// one closed top-level fence spans from the first to the last non-blank line,
/// else all lines.
pub open spec fn document_window(ls: Seq<Seq<char>>) -> (int, int) {
    let rs = fence_regions_of(ls);
    if rs.len() == 1 && rs[0].1 < ls.len() && first_nonblank(ls, 0) == Some(rs[0].0)
        && last_nonblank(ls, ls.len() as int) == Some(rs[0].1) {
        (rs[0].0 + 1, rs[0].1)
    } else {
        (0, ls.len() as int)
    }
}

/// Line `idx` lies within one of the regions (ends included).
pub open spec fn in_regions(rs: Seq<(int, int)>, idx: int) -> bool {
    exists|j: int| 0 <= j < rs.len() && #[trigger] rs[j].0 <= idx && idx <= rs[j].1
}

/// The value of the first result line of `body[k..]` outside the regions.
pub open spec fn result_from(body: Seq<Seq<char>>, rs: Seq<(int, int)>, k: int) -> Option<
    Seq<char>,
>
    decreases body.len() - k,
{
    if k < 0 || k >= body.len() {
        None
    } else if !in_regions(rs, k) && starts_with(trim_end(body[k]), result_prefix()) {
        Some(trim(trim_end(body[k]).skip(result_prefix().len() as int)))
    } else {
        result_from(body, rs, k + 1)
    }
}

/// The (trimmed) value of a report's result line, if it has one.
pub open spec fn result_value(report: Seq<char>) -> Option<Seq<char>> {
    let ls = lines(report);
    let w = document_window(ls);
    let body = ls.subrange(w.0, w.1);
    result_from(body, fence_regions_of(body), 0)
}

/// `v` is the verdict that a result value (or its absence) gives.
pub open spec fn verdict_for(v: Verdict, value: Option<Seq<char>>) -> bool {
    match value {
        None => v is Missing,
        Some(x) => if eq_ignore_case(x, "APPROVE"@) {
            v is Approve
        } else {
            v matches Verdict::Blocking(s) && s@ == x
        },
    }
}

/// A report (its body, if it could be read) approves.
pub open spec fn approves(body: Option<Seq<char>>) -> bool {
    match body {
        Some(text) => result_value(text) matches Some(x) && eq_ignore_case(x, "APPROVE"@),
        None => false,
    }
}

/// The verdict value of a report body that may not have been read.
pub open spec fn body_value(body: Option<Seq<char>>) -> Option<Seq<char>> {
    match body {
        Some(text) => result_value(text),
        None => None,
    }
}

/// The view of a named report.
pub open spec fn report_view(r: (String, Option<String>)) -> (Seq<char>, Option<Seq<char>>) {
    (
        r.0@,
        match r.1 {
            Some(b) => Some(b@),
            None => None,
        },
    )
}

/// The reports that do not approve, in order.
pub open spec fn blockers(reports: Seq<(Seq<char>, Option<Seq<char>>)>) -> Seq<
    (Seq<char>, Option<Seq<char>>),
> {
    reports.filter(|r: (Seq<char>, Option<Seq<char>>)| !approves(r.1))
}

/// The regions as integer pairs.
pub open spec fn int_regions(r: Seq<(usize, usize)>) -> Seq<(int, int)> {
    r.map_values(|x: (usize, usize)| (x.0 as int, x.1 as int))
}

/// The open fence as a spec value.
pub open spec fn open_view(o: Option<(usize, usize)>) -> Option<(int, nat)> {
    match o {
        Some(x) => Some((x.0 as int, x.1 as nat)),
        None => None,
    }
}

proof fn lemma_tick_run_bound(s: Seq<char>, i: int)
    requires
        0 <= i <= s.len(),
    ensures
        tick_run(s, i) <= s.len() - i,
        forall|j: int| i <= j < i + tick_run(s, i) ==> s[j] == '`',
        i + tick_run(s, i) < s.len() ==> s[i + tick_run(s, i)] != '`',
    decreases s.len() - i,
{
    if i < s.len() && s[i] == '`' {
        lemma_tick_run_bound(s, i + 1);
    }
}

/// The number of backticks that open `v[lo..hi]` after its leading whitespace,
/// when there are at least three.
fn fence_ticks_span(v: &[char], lo: usize, hi: usize) -> (r: Option<usize>)
    requires
        lo <= hi <= v@.len(),
    ensures
        match r {
            Some(t) => fence_ticks(v@.subrange(lo as int, hi as int)) == Some(t as nat),
            None => fence_ticks(v@.subrange(lo as int, hi as int)) is None,
        },
{
    let a = trim_start_span(v, lo, hi);
    let ghost t = v@.subrange(a as int, hi as int);
    let mut j: usize = a;
    while j < hi && v[j] == '`'
        invariant
            a <= j <= hi <= v@.len(),
            t == v@.subrange(a as int, hi as int),
            tick_run(t, 0) == (j - a) + tick_run(t, j - a),
        decreases hi - j,
    {
        j += 1;
    }
    if j - a >= 3 {
        Some(j - a)
    } else {
        None
    }
}

/// `fence_marker`: a fence line's backtick count (three or more).
pub fn fence_marker(line: &str) -> (r: Option<usize>)
    ensures
        match r {
            Some(t) => fence_ticks(line@) == Some(t as nat),
            None => fence_ticks(line@) is None,
        },
{
    let v = chars_of(line);
    assert(v@.subrange(0, v@.len() as int) == v@);
    fence_ticks_span(&v, 0, v.len())
}

fn all_ticks_span(v: &[char], lo: usize, hi: usize) -> (b: bool)
    requires
        lo <= hi <= v@.len(),
    ensures
        b == all_ticks(v@.subrange(lo as int, hi as int)),
{
    let mut j: usize = lo;
    while j < hi
        invariant
            lo <= j <= hi <= v@.len(),
            forall|k: int| lo <= k < j ==> v@[k] == '`',
        decreases hi - j,
    {
        if v[j] != '`' {
            assert(v@.subrange(lo as int, hi as int)[j - lo] != '`');
            return false;
        }
        j += 1;
    }
    true
}

/// Top-level fence regions of `ls[lo..hi]`, as line indices relative to `lo`.
fn regions_window(ls: &Vec<Vec<char>>, lo: usize, hi: usize) -> (r: Vec<(usize, usize)>)
    requires
        lo <= hi <= ls@.len(),
    ensures
        int_regions(r@) == fence_regions_of(vviews(ls@).subrange(lo as int, hi as int)),
        forall|j: int| 0 <= j < r@.len() ==> (#[trigger] r@[j]).0 < r@[j].1 <= hi - lo,
{
    let ghost body = vviews(ls@).subrange(lo as int, hi as int);
    let mut r: Vec<(usize, usize)> = Vec::new();
    let mut open: Option<(usize, usize)> = None;
    let mut k: usize = lo;
    while k < hi
        invariant
            lo <= k <= hi <= ls@.len(),
            body == vviews(ls@).subrange(lo as int, hi as int),
            fence_regions_of(body) == int_regions(r@) + regions_from(body, k - lo, open_view(open)),
            forall|j: int| 0 <= j < r@.len() ==> (#[trigger] r@[j]).0 < r@[j].1 <= hi - lo,
            open matches Some(o) ==> o.0 < k - lo,
        decreases hi - k,
    {
        let line = &ls[k];
        assert(body[k - lo] == line@);
        assert(line@.subrange(0, line@.len() as int) == line@);
        let ft = fence_ticks_span(line, 0, line.len());
        match ft {
            None => {},
            Some(t) => {
                match open {
                    None => {
                        open = Some((k - lo, t));
                    },
                    Some(o) => {
                        let (a, b) = trim_span(line, 0, line.len());
                        let closes = t >= o.1 && all_ticks_span(line, a, b);
                        if closes {
                            let ghost old_r = r@;
                            r.push((o.0, k - lo));
                            assert(int_regions(r@) == int_regions(old_r).push((o.0 as int, (k - lo) as int)));
                            assert(int_regions(old_r) + (seq![(o.0 as int, (k - lo) as int)]
                                + regions_from(body, k - lo + 1, None)) =~= int_regions(r@)
                                + regions_from(body, k - lo + 1, None));
                            open = None;
                        }
                    },
                }
            },
        }
        k += 1;
    }
    match open {
        Some(o) => {
            let ghost old_r = r@;
            r.push((o.0, hi - lo));
            assert(int_regions(r@) == int_regions(old_r).push((o.0 as int, (hi - lo) as int)));
        },
        None => {
            assert(int_regions(r@) + Seq::<(int, int)>::empty() =~= int_regions(r@));
        },
    }
    r
}

/// Top-level fence regions `(open line, close line)` of `lines`.
pub fn fence_regions(lines: &Vec<String>) -> (r: Vec<(usize, usize)>)
    ensures
        int_regions(r@) == fence_regions_of(views(lines@)),
{
    let ls = chars_of_all(lines);
    assert(vviews(ls@).subrange(0, ls@.len() as int) == views(lines@));
    regions_window(&ls, 0, ls.len())
}

fn blank_line(line: &Vec<char>) -> (b: bool)
    ensures
        b == (trim(line@).len() == 0),
{
    let (a, b) = trim_span(line, 0, line.len());
    assert(line@.subrange(0, line@.len() as int) == line@);
    a == b
}

fn first_nonblank_exec(ls: &Vec<Vec<char>>) -> (r: Option<usize>)
    ensures
        match r {
            Some(k) => first_nonblank(vviews(ls@), 0) == Some(k as int),
            None => first_nonblank(vviews(ls@), 0) is None,
        },
{
    let mut k: usize = 0;
    while k < ls.len()
        invariant
            k <= ls@.len(),
            first_nonblank(vviews(ls@), 0) == first_nonblank(vviews(ls@), k as int),
        decreases ls@.len() - k,
    {
        assert(vviews(ls@)[k as int] == ls@[k as int]@);
        if !blank_line(&ls[k]) {
            return Some(k);
        }
        k += 1;
    }
    None
}

fn last_nonblank_exec(ls: &Vec<Vec<char>>) -> (r: Option<usize>)
    ensures
        match r {
            Some(k) => last_nonblank(vviews(ls@), ls@.len() as int) == Some(k as int),
            None => last_nonblank(vviews(ls@), ls@.len() as int) is None,
        },
{
    let mut j: usize = ls.len();
    while j > 0
        invariant
            j <= ls@.len(),
            last_nonblank(vviews(ls@), ls@.len() as int) == last_nonblank(vviews(ls@), j as int),
        decreases j,
    {
        assert(vviews(ls@)[j - 1] == ls@[j - 1]@);
        if !blank_line(&ls[j - 1]) {
            return Some(j - 1);
        }
        j -= 1;
    }
    None
}

/// The window `[lo, hi)` of lines that the verdict is read from.
fn document_window_exec(ls: &Vec<Vec<char>>) -> (r: (usize, usize))
    ensures
        r.0 <= r.1 <= ls@.len(),
        (r.0 as int, r.1 as int) == document_window(vviews(ls@)),
{
    let regions = regions_window(ls, 0, ls.len());
    assert(vviews(ls@).subrange(0, ls@.len() as int) == vviews(ls@));
    if regions.len() != 1 {
        return (0, ls.len());
    }
    let (start, end) = regions[0];
    assert(int_regions(regions@)[0] == (start as int, end as int));
    if end >= ls.len() {
        return (0, ls.len());
    }
    let first = first_nonblank_exec(ls);
    let last = last_nonblank_exec(ls);
    let first_ok = match first {
        Some(f) => f == start,
        None => false,
    };
    let last_ok = match last {
        Some(l) => l == end,
        None => false,
    };
    if first_ok && last_ok {
        (start + 1, end)
    } else {
        (0, ls.len())
    }
}

/// The lines that the verdict is read from: unwraps a fence that encloses
/// the whole document (and nothing else), else returns every line.
pub fn strip_document_fence(lines: &Vec<String>) -> (r: Vec<String>)
    ensures
        views(r@) == views(lines@).subrange(
            document_window(views(lines@)).0,
            document_window(views(lines@)).1,
        ),
{
    let ls = chars_of_all(lines);
    let (lo, hi) = document_window_exec(&ls);
    let mut r: Vec<String> = Vec::new();
    let mut k: usize = lo;
    while k < hi
        invariant
            lo <= k <= hi <= lines@.len(),
            ls@.len() == lines@.len(),
            views(r@) == views(lines@).subrange(lo as int, k as int),
        decreases hi - k,
    {
        let s = lines[k].clone();
        let ghost old_r = r@;
        r.push(s);
        assert(views(r@) == views(old_r).push(lines@[k as int]@));
        assert(views(lines@).subrange(lo as int, k + 1) == views(lines@).subrange(
            lo as int,
            k as int,
        ).push(lines@[k as int]@));
        k += 1;
    }
    r
}

fn in_regions_exec(rs: &Vec<(usize, usize)>, idx: usize) -> (b: bool)
    ensures
        b == in_regions(int_regions(rs@), idx as int),
{
    let mut j: usize = 0;
    while j < rs.len()
        invariant
            j <= rs@.len(),
            forall|i: int|
                0 <= i < j ==> !((#[trigger] int_regions(rs@)[i]).0 <= idx && idx <= int_regions(
                    rs@,
                )[i].1),
        decreases rs@.len() - j,
    {
        let (a, b) = rs[j];
        assert(int_regions(rs@)[j as int] == (a as int, b as int));
        if a <= idx && idx <= b {
            return true;
        }
        j += 1;
    }
    false
}

/// Reads the verdict of a report: the first `## Result:` line outside code
/// fences decides; `APPROVE` in any ASCII case approves, any other value
/// blocks, and no such line means the report is missing its verdict.
pub fn verdict_of(report: &str) -> (r: Verdict)
    ensures
        verdict_for(r, result_value(report@)),
{
    let ls = split_lines(report);
    let (lo, hi) = document_window_exec(&ls);
    let regions = regions_window(&ls, lo, hi);
    let ghost body = vviews(ls@).subrange(lo as int, hi as int);
    let prefix = chars_of("## Result:");
    let approve = chars_of("APPROVE");
    let mut k: usize = lo;
    while k < hi
        invariant
            lo <= k <= hi <= ls@.len(),
            body == vviews(ls@).subrange(lo as int, hi as int),
            body == lines(report@).subrange(
                document_window(lines(report@)).0,
                document_window(lines(report@)).1,
            ),
            int_regions(regions@) == fence_regions_of(body),
            prefix@ == result_prefix(),
            approve@ == "APPROVE"@,
            result_value(report@) == result_from(body, fence_regions_of(body), k - lo),
        decreases hi - k,
    {
        let line = &ls[k];
        assert(body[k - lo] == line@);
        if !in_regions_exec(&regions, k - lo) {
            let e = trim_end_span(line, 0, line.len());
            assert(line@.subrange(0, line@.len() as int) == line@);
            if span_starts_with(line, 0, e, &prefix) {
                let (a, b) = trim_span(line, prefix.len(), e);
                assert(line@.subrange(0, e as int).skip(prefix@.len() as int) == line@.subrange(
                    prefix@.len() as int,
                    e as int,
                ));
                let mut value: Vec<char> = Vec::new();
                crate::text::append_span(&mut value, line, a, b);
                proof {
                    assert(trim_end(line@) == line@.subrange(0, e as int));
                    assert(value@ == trim(trim_end(line@).skip(result_prefix().len() as int)));
                    assert(result_from(body, fence_regions_of(body), k - lo) == Some(value@));
                }
                assert(result_value(report@) == Some(value@));
                if eq_ignore_case_exec(&value, &approve) {
                    assert(eq_ignore_case(value@, "APPROVE"@));
                    return Verdict::Approve;
                }
                assert(!eq_ignore_case(value@, "APPROVE"@));
                let blocking = crate::text::string_of(&value);
                return Verdict::Blocking(blocking);
            }
        }
        k += 1;
    }
    Verdict::Missing
}

/// The reports that keep the push from going on, with their verdicts.
///
/// No report at all blocks too (as one missing verdict), and so does a
/// report that could not be read.
pub fn blocking_reports(reports: &[(String, Option<String>)]) -> (r: Vec<(String, Verdict)>)
    ensures
        reports@.len() == 0 ==> r@.len() == 1 && r@[0].1 is Missing && r@[0].0@
            == "(レポートが 1 件もありません)"@,
        reports@.len() > 0 ==> r@.len() == blockers(reports@.map_values(
            |x: (String, Option<String>)| report_view(x),
        )).len() && forall|i: int|
            0 <= i < r@.len() ==> (#[trigger] r@[i]).0@ == blockers(
                reports@.map_values(|x: (String, Option<String>)| report_view(x)),
            )[i].0 && verdict_for(
                r@[i].1,
                body_value(
                    blockers(reports@.map_values(|x: (String, Option<String>)| report_view(x)))[i].1,
                ),
            ),
{
    let mut r: Vec<(String, Verdict)> = Vec::new();
    if reports.len() == 0 {
        r.push((string_from_literal("(レポートが 1 件もありません)"), Verdict::Missing));
        return r;
    }
    let ghost rv = reports@.map_values(|x: (String, Option<String>)| report_view(x));
    let mut k: usize = 0;
    while k < reports.len()
        invariant
            k <= reports@.len(),
            rv == reports@.map_values(|x: (String, Option<String>)| report_view(x)),
            r@.len() == blockers(rv.take(k as int)).len(),
            forall|i: int|
                0 <= i < r@.len() ==> (#[trigger] r@[i]).0@ == blockers(rv.take(k as int))[i].0
                    && verdict_for(r@[i].1, body_value(blockers(rv.take(k as int))[i].1)),
        decreases reports@.len() - k,
    {
        let (name, body) = &reports[k];
        assert(rv[k as int] == report_view(reports@[k as int]));
        let verdict = match body {
            Some(text) => verdict_of(text.as_str()),
            None => Verdict::Missing,
        };
        let is_approve = match verdict {
            Verdict::Approve => true,
            _ => false,
        };
        proof {
            assert(rv.take(k + 1).drop_last() == rv.take(k as int));
            assert(rv.take(k + 1).last() == rv[k as int]);
            assert(blockers(rv.take(k + 1)) == if !approves(rv[k as int].1) {
                blockers(rv.take(k as int)).push(rv[k as int])
            } else {
                blockers(rv.take(k as int))
            }) by {
                reveal_with_fuel(Seq::filter, 1);
            }
            assert(is_approve == approves(rv[k as int].1));
        }
        if !is_approve {
            r.push((name.clone(), verdict));
        }
        k += 1;
    }
    assert(rv.take(reports@.len() as int) == rv);
    r
}

fn string_from_literal(s: &str) -> (r: String)
    ensures
        r@ == s@,
{
    let v = chars_of(s);
    crate::text::string_of(&v)
}

// ---------------------------------------------------------------------------
// Laws
// ---------------------------------------------------------------------------

/// Line `e` closes the fence opened on line `s`: backticks alone, at least
/// as many as opened it.
pub open spec fn closes_fence(ls: Seq<Seq<char>>, s: int, e: int) -> bool {
    &&& all_ticks(trim(ls[e]))
    &&& fence_ticks(ls[e]) is Some
    &&& fence_ticks(ls[s]) is Some
    &&& fence_ticks(ls[e])->0 >= fence_ticks(ls[s])->0
}

/// Each region opens on a fence line at or after `lo` and ends after it,
/// at the end of `ls` at the latest.
pub open spec fn regions_bounded(ls: Seq<Seq<char>>, rs: Seq<(int, int)>, lo: int) -> bool {
    forall|j: int|
        0 <= j < rs.len() ==> lo <= (#[trigger] rs[j]).0 < rs[j].1 <= ls.len() && fence_ticks(
            ls[rs[j].0],
        ) is Some
}

/// Each region that ends before the end of `ls` ends at a line that closes
/// its fence.
pub open spec fn regions_closed(ls: Seq<Seq<char>>, rs: Seq<(int, int)>) -> bool {
    forall|j: int|
        0 <= j < rs.len() && (#[trigger] rs[j]).1 < ls.len() ==> closes_fence(
            ls,
            rs[j].0,
            rs[j].1,
        )
}

/// The regions come in order without overlap.
pub open spec fn regions_ordered(rs: Seq<(int, int)>) -> bool {
    forall|j: int| 0 <= j < rs.len() - 1 ==> (#[trigger] rs[j]).1 < rs[j + 1].0
}

/// Every fence line of `ls` from `lo` on lies in a region.
pub open spec fn regions_cover(ls: Seq<Seq<char>>, rs: Seq<(int, int)>, lo: int) -> bool {
    forall|i: int|
        lo <= i < ls.len() && (#[trigger] fence_ticks(ls[i])) is Some ==> in_regions(rs, i)
}

/// The regions are well formed over `ls`, from line `lo` on: each opens on
/// a fence line at or after `lo` and ends after it, at a closing line of
/// backticks alone (at least as many as opened it) or at the end; they come
/// in order without overlap, and every fence line from `lo` on lies in one
/// of them.
pub open spec fn regions_well_formed(ls: Seq<Seq<char>>, rs: Seq<(int, int)>, lo: int) -> bool {
    &&& regions_bounded(ls, rs, lo)
    &&& regions_closed(ls, rs)
    &&& regions_ordered(rs)
    &&& regions_cover(ls, rs, lo)
}

proof fn lemma_close_bounded(ls: Seq<Seq<char>>, s: int, k: int, rest: Seq<(int, int)>)
    requires
        0 <= s < k < ls.len(),
        fence_ticks(ls[s]) is Some,
        regions_bounded(ls, rest, k + 1),
    ensures
        regions_bounded(ls, seq![(s, k)] + rest, s),
{
    let rs = seq![(s, k)] + rest;
    assert forall|j: int| 0 <= j < rs.len() implies s <= (#[trigger] rs[j]).0 < rs[j].1
        <= ls.len() && fence_ticks(ls[rs[j].0]) is Some by {
        if j > 0 {
            assert(rs[j] == rest[j - 1]);
        }
    }
}

proof fn lemma_close_closed(ls: Seq<Seq<char>>, s: int, k: int, rest: Seq<(int, int)>)
    requires
        closes_fence(ls, s, k),
        regions_closed(ls, rest),
    ensures
        regions_closed(ls, seq![(s, k)] + rest),
{
    let rs = seq![(s, k)] + rest;
    assert forall|j: int|
        0 <= j < rs.len() && (#[trigger] rs[j]).1 < ls.len() implies closes_fence(
        ls,
        rs[j].0,
        rs[j].1,
    ) by {
        if j > 0 {
            assert(rs[j] == rest[j - 1]);
        }
    }
}

proof fn lemma_close_ordered(ls: Seq<Seq<char>>, s: int, k: int, rest: Seq<(int, int)>)
    requires
        regions_bounded(ls, rest, k + 1),
        regions_ordered(rest),
    ensures
        regions_ordered(seq![(s, k)] + rest),
{
    let rs = seq![(s, k)] + rest;
    assert forall|j: int| 0 <= j < rs.len() - 1 implies (#[trigger] rs[j]).1 < rs[j + 1].0 by {
        assert(rs[j + 1] == rest[j]);
        if j > 0 {
            assert(rs[j] == rest[j - 1]);
        }
    }
}

proof fn lemma_close_cover(ls: Seq<Seq<char>>, s: int, k: int, rest: Seq<(int, int)>)
    requires
        regions_cover(ls, rest, k + 1),
    ensures
        regions_cover(ls, seq![(s, k)] + rest, s),
{
    let rs = seq![(s, k)] + rest;
    assert forall|i: int|
        s <= i < ls.len() && (#[trigger] fence_ticks(ls[i])) is Some implies in_regions(rs, i) by {
        if i <= k {
            assert(rs[0].0 <= i && i <= rs[0].1);
        } else {
            assert(in_regions(rest, i));
            let jj = choose|jj: int|
                0 <= jj < rest.len() && #[trigger] rest[jj].0 <= i && i <= rest[jj].1;
            assert(rs[jj + 1] == rest[jj]);
            assert(rs[jj + 1].0 <= i && i <= rs[jj + 1].1);
        }
    }
}

proof fn lemma_regions_from_well_formed(ls: Seq<Seq<char>>, k: int, open: Option<(int, nat)>)
    requires
        0 <= k <= ls.len(),
        open matches Some(o) ==> 0 <= o.0 < k && fence_ticks(ls[o.0]) == Some(o.1),
    ensures
        regions_well_formed(
            ls,
            regions_from(ls, k, open),
            match open {
                Some(o) => o.0,
                None => k,
            },
        ),
        open matches Some(o) ==> regions_from(ls, k, open).len() > 0 && regions_from(
            ls,
            k,
            open,
        )[0].0 == o.0 && regions_from(ls, k, open)[0].1 >= k,
    decreases ls.len() - k,
{
    let rs = regions_from(ls, k, open);
    if k >= ls.len() {
        match open {
            Some(o) => {
                assert(rs == seq![(o.0, ls.len() as int)]);
                assert forall|i: int|
                    o.0 <= i < ls.len() && (#[trigger] fence_ticks(ls[i])) is Some implies in_regions(
                    rs,
                    i,
                ) by {
                    assert(rs[0].0 <= i && i <= rs[0].1);
                }
            },
            None => {},
        }
    } else {
        match fence_ticks(ls[k]) {
            None => {
                assert(rs == regions_from(ls, k + 1, open));
                lemma_regions_from_well_formed(ls, k + 1, open);
            },
            Some(t) => match open {
                None => {
                    assert(rs == regions_from(ls, k + 1, Some((k, t))));
                    lemma_regions_from_well_formed(ls, k + 1, Some((k, t)));
                },
                Some(o) => if t >= o.1 && all_ticks(trim(ls[k])) {
                    let rest = regions_from(ls, k + 1, None);
                    assert(rs == seq![(o.0, k)] + rest);
                    lemma_regions_from_well_formed(ls, k + 1, None);
                    lemma_close_bounded(ls, o.0, k, rest);
                    lemma_close_closed(ls, o.0, k, rest);
                    lemma_close_ordered(ls, o.0, k, rest);
                    lemma_close_cover(ls, o.0, k, rest);
                } else {
                    assert(rs == regions_from(ls, k + 1, open));
                    lemma_regions_from_well_formed(ls, k + 1, open);
                },
            },
        }
    }
}

/// The top-level fence regions of a report are well formed: each opens on a
/// fence line and ends after it, at a line of backticks alone (at least as
/// many as opened it) or, for the last only, at the end; they are ordered
/// without overlap, and every fence line lies in one of them.
pub proof fn lemma_fence_regions_well_formed(ls: Seq<Seq<char>>)
    ensures
        regions_well_formed(ls, fence_regions_of(ls), 0),
        forall|j: int|
            0 <= j < fence_regions_of(ls).len() - 1 ==> (#[trigger] fence_regions_of(ls)[j]).1
                < ls.len(),
{
    lemma_regions_from_well_formed(ls, 0, None);
    let rs = fence_regions_of(ls);
    assert forall|j: int| 0 <= j < rs.len() - 1 implies (#[trigger] rs[j]).1 < ls.len() by {
        assert(rs[j].1 < rs[j + 1].0);
        assert(rs[j + 1].0 < rs[j + 1].1 <= ls.len());
    }
}

} // verus!
