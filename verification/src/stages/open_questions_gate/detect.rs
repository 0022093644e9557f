//! Reading the open questions of `docs/open-questions.md` (no I/O).
//!
//! Only `## Q-<id>: <question>` headings count as questions. The `関連:`
//! (related) and `仮定:` (assumption) lines under a heading are collected
//! for display, but a question without them still counts. Code fences are
//! skipped (the document shows examples of entries), and any other heading
//! ends the collection of fields for the question before it.
use vstd::prelude::*;

use crate::text::{
    append_span, chars_of, find, find_from_exec, lemma_find_from, lines, span_starts_with,
    split_lines, starts_with, string_of_span, trim, trim_end, trim_end_span, trim_span,
    trim_start, trim_start_span, vviews,
};

verus! {

// ---------------------------------------------------------------------------
// Types
// ---------------------------------------------------------------------------

/// One open question.
#[derive(Debug, PartialEq, Eq)]
pub struct OpenQuestion {
    /// What follows `Q-` (for example `1`).
    pub id: String,
    /// The heading after the colon.
    pub question: String,
    /// The value of `関連:`, if written.
    pub related: Option<String>,
    /// The value of `仮定:`, if written.
    pub assumption: Option<String>,
}

/// An open question by the views of its fields.
pub struct QuestionView {
    pub id: Seq<char>,
    pub question: Seq<char>,
    pub related: Option<Seq<char>>,
    pub assumption: Option<Seq<char>>,
}

// ---------------------------------------------------------------------------
// Specifications
// ---------------------------------------------------------------------------

/// The view of an optional string.
pub open spec fn opt_view(o: Option<String>) -> Option<Seq<char>> {
    match o {
        Some(s) => Some(s@),
        None => None,
    }
}

/// The view of a question.
pub open spec fn qview(q: OpenQuestion) -> QuestionView {
    QuestionView {
        id: q.id@,
        question: q.question@,
        related: opt_view(q.related),
        assumption: opt_view(q.assumption),
    }
}

/// The views of a list of questions.
pub open spec fn qviews(qs: Seq<OpenQuestion>) -> Seq<QuestionView> {
    qs.map_values(|q: OpenQuestion| qview(q))
}

/// The index just past the run of `#` that starts at `i`.
pub open spec fn skip_hashes(s: Seq<char>, i: int) -> int
    decreases s.len() - i,
{
    if 0 <= i < s.len() && s[i] == '#' {
        skip_hashes(s, i + 1)
    } else {
        i
    }
}

/// A list or quote marker that may open a field line.
pub open spec fn is_marker(c: char) -> bool {
    c == '-' || c == '*' || c == '>'
}

/// The index just past the run of markers that starts at `i`.
pub open spec fn skip_markers(s: Seq<char>, i: int) -> int
    decreases s.len() - i,
{
    if 0 <= i < s.len() && is_marker(s[i]) {
        skip_markers(s, i + 1)
    } else {
        i
    }
}

/// A markdown heading of any level: `#`s, then a space.
pub open spec fn is_heading_line(line: Seq<char>) -> bool {
    let t = trim_start(line);
    starts_with(t, "#"@) && starts_with(t.skip(skip_hashes(t, 0)), " "@)
}

/// The question that a `## Q-<id>: <question>` line opens (the id and the
/// question trimmed; the id must not be blank).
pub open spec fn heading_of(line: Seq<char>) -> Option<QuestionView> {
    if !starts_with(line, "## Q-"@) {
        None
    } else {
        let rest = line.skip("## Q-"@.len() as int);
        match find(rest, seq![':']) {
            None => None,
            Some(c) => if trim(rest.take(c)).len() == 0 {
                None
            } else {
                Some(
                    QuestionView {
                        id: trim(rest.take(c)),
                        question: trim(rest.skip(c + 1)),
                        related: None,
                        assumption: None,
                    },
                )
            },
        }
    }
}

/// The value of a `<prefix> <value>` line, after leading whitespace and
/// list or quote markers; `None` when blank.
pub open spec fn field_of(line: Seq<char>, prefix: Seq<char>) -> Option<Seq<char>> {
    let b = trim_start(line);
    let body = trim_start(b.skip(skip_markers(b, 0)));
    if !starts_with(body, prefix) {
        None
    } else if trim(body.skip(prefix.len() as int)).len() == 0 {
        None
    } else {
        Some(trim(body.skip(prefix.len() as int)))
    }
}

/// A line that opens or closes a code fence.
pub open spec fn is_fence_line(line: Seq<char>) -> bool {
    starts_with(trim_start(trim_end(line)), "```"@)
}

/// `v` unless `o` is already set.
pub open spec fn or_insert(o: Option<Seq<char>>, v: Seq<char>) -> Option<Seq<char>> {
    match o {
        Some(x) => Some(x),
        None => Some(v),
    }
}

/// The reading after one more line: the questions so far, whether fields
/// still attach to the last of them, and whether a fence is open.
pub open spec fn scan_step(st: (Seq<QuestionView>, bool, bool), line: Seq<char>) -> (
    Seq<QuestionView>,
    bool,
    bool,
) {
    let (qs, attached, fence) = st;
    let t = trim_end(line);
    if is_fence_line(line) {
        (qs, attached, !fence)
    } else if fence {
        st
    } else if heading_of(t) is Some {
        (qs.push(heading_of(t)->0), true, fence)
    } else if is_heading_line(t) {
        (qs, false, fence)
    } else if !attached || qs.len() == 0 {
        st
    } else if field_of(t, "関連:"@) is Some {
        let q = qs.last();
        (
            qs.update(
                qs.len() - 1,
                QuestionView { related: or_insert(q.related, field_of(t, "関連:"@)->0), ..q },
            ),
            attached,
            fence,
        )
    } else if field_of(t, "仮定:"@) is Some {
        let q = qs.last();
        (
            qs.update(
                qs.len() - 1,
                QuestionView { assumption: or_insert(q.assumption, field_of(t, "仮定:"@)->0), ..q },
            ),
            attached,
            fence,
        )
    } else {
        st
    }
}

/// The reading of a sequence of lines.
pub open spec fn scan(ls: Seq<Seq<char>>) -> (Seq<QuestionView>, bool, bool)
    decreases ls.len(),
{
    if ls.len() == 0 {
        (seq![], false, false)
    } else {
        scan_step(scan(ls.drop_last()), ls.last())
    }
}

/// The open questions of a document.
pub open spec fn questions_of(content: Seq<char>) -> Seq<QuestionView> {
    scan(lines(content)).0
}

// ---------------------------------------------------------------------------
// Executable functions
// ---------------------------------------------------------------------------

/// Whether `c` continues the run that `skip_run` skips.
fn in_run(c: char, hashes: bool) -> (b: bool)
    ensures
        hashes ==> b == (c == '#'),
        !hashes ==> b == is_marker(c),
{
    if hashes {
        c == '#'
    } else {
        c == '-' || c == '*' || c == '>'
    }
}

/// Index just past the run of `#` (or of list and quote markers) that starts at `i`.
fn skip_run(v: &[char], i: usize, hashes: bool) -> (j: usize)
    requires
        i <= v@.len(),
    ensures
        hashes ==> j == skip_hashes(v@, i as int),
        !hashes ==> j == skip_markers(v@, i as int),
        i <= j <= v@.len(),
{
    let mut j: usize = i;
    while j < v.len() && in_run(v[j], hashes)
        invariant
            i <= j <= v@.len(),
            hashes ==> skip_hashes(v@, i as int) == skip_hashes(v@, j as int),
            !hashes ==> skip_markers(v@, i as int) == skip_markers(v@, j as int),
        decreases v@.len() - j,
    {
        j += 1;
    }
    j
}

fn is_heading_chars(t: &[char]) -> (b: bool)
    ensures
        b == is_heading_line(t@),
{
    let a = trim_start_span(t, 0, t.len());
    assert(t@.subrange(0, t@.len() as int) == t@);
    let mut s: Vec<char> = Vec::new();
    append_span(&mut s, t, a, t.len());
    assert(s@ == trim_start(t@));
    let hash = chars_of("#");
    let space = chars_of(" ");
    assert(s@.subrange(0, s@.len() as int) == s@);
    if !span_starts_with(&s, 0, s.len(), &hash) {
        return false;
    }
    let h = skip_run(&s, 0, true);
    assert(s@.subrange(h as int, s@.len() as int) == s@.skip(h as int));
    span_starts_with(&s, h, s.len(), &space)
}

/// Whether `line` is a markdown heading of any level (`#`s, then a space,
/// after leading whitespace).
pub fn is_heading(line: &str) -> (b: bool)
    ensures
        b == is_heading_line(line@),
{
    let v = chars_of(line);
    is_heading_chars(&v)
}

fn parse_heading_chars(t: &[char]) -> (r: Option<OpenQuestion>)
    ensures
        match r {
            Some(q) => heading_of(t@) == Some(qview(q)),
            None => heading_of(t@) is None,
        },
{
    let prefix = chars_of("## Q-");
    assert(t@.subrange(0, t@.len() as int) == t@);
    if !span_starts_with(t, 0, t.len(), &prefix) {
        return None;
    }
    let mut rest: Vec<char> = Vec::new();
    append_span(&mut rest, t, prefix.len(), t.len());
    assert(rest@ == t@.skip(prefix@.len() as int));
    let colon: Vec<char> = vec![':'];
    assert(colon@ == seq![':']);
    assert(rest@.subrange(0, rest@.len() as int) == rest@);
    assert(prefix@ == "## Q-"@);
    assert(starts_with(t@, "## Q-"@));
    let c = match find_from_exec(&rest, rest.len(), &colon, 0) {
        None => {
            return None;
        },
        Some(c) => c,
    };
    proof {
        lemma_find_from(rest@, colon@, 0);
    }
    let (a, b) = trim_span(&rest, 0, c);
    assert(rest@.subrange(0, c as int) == rest@.take(c as int));
    if a == b {
        return None;
    }
    let id = string_of_span(&rest, a, b);
    let (qa, qb) = trim_span(&rest, c + 1, rest.len());
    assert(rest@.subrange(c + 1, rest@.len() as int) == rest@.skip(c + 1));
    let question = string_of_span(&rest, qa, qb);
    Some(OpenQuestion { id, question, related: None, assumption: None })
}

/// The question that a `## Q-<id>: <question>` line opens; `None` without
/// the colon or with a blank id.
pub fn parse_heading(line: &str) -> (r: Option<OpenQuestion>)
    ensures
        match r {
            Some(q) => heading_of(line@) == Some(qview(q)),
            None => heading_of(line@) is None,
        },
{
    let v = chars_of(line);
    parse_heading_chars(&v)
}

fn field_value_chars(t: &[char], prefix: &[char]) -> (r: Option<String>)
    ensures
        opt_view(r) == field_of(t@, prefix@),
{
    assert(t@.subrange(0, t@.len() as int) == t@);
    let a = trim_start_span(t, 0, t.len());
    let mut b1: Vec<char> = Vec::new();
    append_span(&mut b1, t, a, t.len());
    let m = skip_run(&b1, 0, false);
    assert(b1@.subrange(0, b1@.len() as int) == b1@);
    let a2 = trim_start_span(&b1, m, b1.len());
    assert(b1@.subrange(m as int, b1@.len() as int) == b1@.skip(m as int));
    let mut body: Vec<char> = Vec::new();
    append_span(&mut body, &b1, a2, b1.len());
    assert(body@.subrange(0, body@.len() as int) == body@);
    if !span_starts_with(&body, 0, body.len(), prefix) {
        return None;
    }
    let (va, vb) = trim_span(&body, prefix.len(), body.len());
    assert(body@.subrange(prefix@.len() as int, body@.len() as int) == body@.skip(
        prefix@.len() as int,
    ));
    if va == vb {
        return None;
    }
    Some(string_of_span(&body, va, vb))
}

/// The value of a `<prefix> <value>` field line (leading `-`, `*`, `>` and
/// whitespace allowed); `None` when the line is not one or the value is blank.
pub fn field_value(line: &str, prefix: &str) -> (r: Option<String>)
    ensures
        opt_view(r) == field_of(line@, prefix@),
{
    let v = chars_of(line);
    let p = chars_of(prefix);
    field_value_chars(&v, &p)
}

/// The spec view of the reading state kept by `open_questions`.
pub open spec fn state_view(out: Seq<OpenQuestion>, cur: Option<OpenQuestion>, fence: bool) -> (
    Seq<QuestionView>,
    bool,
    bool,
) {
    match cur {
        Some(q) => (qviews(out).push(qview(q)), true, fence),
        None => (qviews(out), false, fence),
    }
}

/// The open questions of a `docs/open-questions.md` document, in order.
pub fn open_questions(content: &str) -> (r: Vec<OpenQuestion>)
    ensures
        qviews(r@) == questions_of(content@),
{
    let ls = split_lines(content);
    let ghost ln = lines(content@);
    let related_p = chars_of("関連:");
    let assumption_p = chars_of("仮定:");
    let fence_p = chars_of("```");
    let mut out: Vec<OpenQuestion> = Vec::new();
    let mut cur: Option<OpenQuestion> = None;
    let mut in_fence = false;
    let mut i: usize = 0;
    while i < ls.len()
        invariant
            i <= ls@.len(),
            ln == vviews(ls@),
            ln == lines(content@),
            related_p@ == "関連:"@,
            assumption_p@ == "仮定:"@,
            fence_p@ == "```"@,
            state_view(out@, cur, in_fence) == scan(ln.take(i as int)),
        decreases ls@.len() - i,
    {
        let l = &ls[i];
        let ghost st = scan(ln.take(i as int));
        proof {
            assert(ln.take(i + 1).drop_last() == ln.take(i as int));
            assert(ln.take(i + 1).last() == l@);
        }
        let e = trim_end_span(l.as_slice(), 0, l.len());
        let mut t: Vec<char> = Vec::new();
        append_span(&mut t, l.as_slice(), 0, e);
        assert(l@.subrange(0, l@.len() as int) == l@);
        assert(t@ == trim_end(l@));
        let ts = trim_start_span(&t, 0, t.len());
        assert(t@.subrange(0, t@.len() as int) == t@);
        let is_fence = span_starts_with(&t, ts, t.len(), &fence_p);
        assert(is_fence == is_fence_line(l@));
        if is_fence {
            in_fence = !in_fence;
        } else if in_fence {
        } else {
            match parse_heading_chars(&t) {
                Some(h) => {
                    match cur {
                        Some(q) => {
                            let ghost before = out@;
                            out.push(q);
                            assert(qviews(out@) == qviews(before).push(qview(q)));
                        },
                        None => {},
                    }
                    cur = Some(h);
                },
                None => {
                    if is_heading_chars(&t) {
                        match cur {
                            Some(q) => {
                                let ghost before = out@;
                                out.push(q);
                                assert(qviews(out@) == qviews(before).push(qview(q)));
                            },
                            None => {},
                        }
                        cur = None;
                    } else {
                        match cur {
                            None => {},
                            Some(q) => {
                                let ghost qs = qviews(out@).push(qview(q));
                                match field_value_chars(&t, &related_p) {
                                    Some(v) => {
                                        let related = match q.related {
                                            Some(x) => Some(x),
                                            None => Some(v),
                                        };
                                        let nq = OpenQuestion { related, ..q };
                                        assert(qviews(out@).push(qview(nq)) == qs.update(
                                            qs.len() - 1,
                                            QuestionView {
                                                related: or_insert(qs.last().related, v@),
                                                ..qs.last()
                                            },
                                        ));
                                        cur = Some(nq);
                                    },
                                    None => {
                                        match field_value_chars(&t, &assumption_p) {
                                            Some(v) => {
                                                let assumption = match q.assumption {
                                                    Some(x) => Some(x),
                                                    None => Some(v),
                                                };
                                                let nq = OpenQuestion { assumption, ..q };
                                                assert(qviews(out@).push(qview(nq)) == qs.update(
                                                    qs.len() - 1,
                                                    QuestionView {
                                                        assumption: or_insert(
                                                            qs.last().assumption,
                                                            v@,
                                                        ),
                                                        ..qs.last()
                                                    },
                                                ));
                                                cur = Some(nq);
                                            },
                                            None => {
                                                cur = Some(q);
                                            },
                                        }
                                    },
                                }
                            },
                        }
                    }
                },
            }
        }
        i += 1;
    }
    assert(ln.take(ls@.len() as int) == ln);
    match cur {
        Some(q) => {
            let ghost before = out@;
            out.push(q);
            assert(qviews(out@) == qviews(before).push(qview(q)));
        },
        None => {},
    }
    out
}

// ---------------------------------------------------------------------------
// Laws
// ---------------------------------------------------------------------------

/// Whether a code fence is open after the lines `ls`.
pub open spec fn fence_open_after(ls: Seq<Seq<char>>) -> bool
    decreases ls.len(),
{
    if ls.len() == 0 {
        false
    } else if is_fence_line(ls.last()) {
        !fence_open_after(ls.drop_last())
    } else {
        fence_open_after(ls.drop_last())
    }
}

/// The (id, question) of each `## Q-<id>: <question>` heading of `ls`
/// outside code fences, in document order.
pub open spec fn question_headings(ls: Seq<Seq<char>>) -> Seq<(Seq<char>, Seq<char>)>
    decreases ls.len(),
{
    if ls.len() == 0 {
        seq![]
    } else {
        let l = ls.last();
        question_headings(ls.drop_last()) + if !is_fence_line(l) && !fence_open_after(
            ls.drop_last(),
        ) && heading_of(trim_end(l)) is Some {
            seq![(heading_of(trim_end(l))->0.id, heading_of(trim_end(l))->0.question)]
        } else {
            seq![]
        }
    }
}

/// The (id, question) of each question.
pub open spec fn ids_and_questions(qs: Seq<QuestionView>) -> Seq<(Seq<char>, Seq<char>)> {
    qs.map_values(|q: QuestionView| (q.id, q.question))
}

proof fn lemma_scan_headings(ls: Seq<Seq<char>>)
    ensures
        scan(ls).2 == fence_open_after(ls),
        ids_and_questions(scan(ls).0) == question_headings(ls),
    decreases ls.len(),
{
    if ls.len() > 0 {
        let prev = scan(ls.drop_last());
        lemma_scan_headings(ls.drop_last());
        let l = ls.last();
        let t = trim_end(l);
        let qs = prev.0;
        if !is_fence_line(l) && !prev.2 && heading_of(t) is None && !is_heading_line(t)
            && prev.1 && qs.len() > 0 {
            if field_of(t, "関連:"@) is Some {
                let q = qs.last();
                let nq = qs.update(
                    qs.len() - 1,
                    QuestionView { related: or_insert(q.related, field_of(t, "関連:"@)->0), ..q },
                );
                assert(ids_and_questions(nq) =~= ids_and_questions(qs));
            } else if field_of(t, "仮定:"@) is Some {
                let q = qs.last();
                let nq = qs.update(
                    qs.len() - 1,
                    QuestionView {
                        assumption: or_insert(q.assumption, field_of(t, "仮定:"@)->0),
                        ..q
                    },
                );
                assert(ids_and_questions(nq) =~= ids_and_questions(qs));
            }
        }
        assert(ids_and_questions(scan(ls).0) =~= question_headings(ls));
    }
}

/// The open questions are the `## Q-<id>: <question>` headings outside code
/// fences, one per heading and in document order, with the id and the
/// question as the heading gives them (trimmed; an id never empty).
pub proof fn lemma_questions_are_the_headings(content: Seq<char>)
    ensures
        ids_and_questions(questions_of(content)) == question_headings(lines(content)),
        forall|k: int|
            0 <= k < questions_of(content).len() ==> (#[trigger] questions_of(content)[k]).id.len()
                > 0,
{
    lemma_scan_headings(lines(content));
    let qs = questions_of(content);
    assert forall|k: int| 0 <= k < qs.len() implies (#[trigger] qs[k]).id.len() > 0 by {
        lemma_headings_ids_nonblank(lines(content));
        assert(ids_and_questions(qs)[k].0 == qs[k].id);
    }
}

proof fn lemma_headings_ids_nonblank(ls: Seq<Seq<char>>)
    ensures
        forall|k: int|
            0 <= k < question_headings(ls).len() ==> (#[trigger] question_headings(ls)[k]).0.len()
                > 0,
    decreases ls.len(),
{
    if ls.len() > 0 {
        lemma_headings_ids_nonblank(ls.drop_last());
        let l = ls.last();
        let t = trim_end(l);
        if heading_of(t) is Some {
            let rest = t.skip("## Q-"@.len() as int);
            let c = find(rest, seq![':'])->0;
            assert(heading_of(t)->0.id == trim(rest.take(c)));
        }
        let hs = question_headings(ls);
        let hp = question_headings(ls.drop_last());
        assert forall|k: int| 0 <= k < hs.len() implies (#[trigger] hs[k]).0.len() > 0 by {
            if k < hp.len() {
                assert(hs[k] == hp[k]);
            }
        }
    }
}

} // verus!
