//! Deterministic diff preprocessing before the lint-screen model sees it:
//! file diffs whose path has an excluded extension (`.md` / `.markdown`) are
//! dropped, and git metadata lines are stripped.
use vstd::prelude::*;

use crate::text::{
    append_span, chars_eq, chars_of, concat, join_lines_nl, last_index_before, lemma_concat_push,
    lemma_join_lines_nl_push, line_spans, lines, lower, lower_span, occurs_at, occurs_at_exec,
    rfind_char, span, span_starts_with, starts_with, string_of, strings_of_spans, views,
};

verus! {

/// What `filter_excluded_hunks` leaves of a diff.
#[derive(Debug, PartialEq, Eq)]
pub enum FilterResult {
    /// At least one file diff survives (or the input is not a `--git` diff).
    Kept(String),
    /// Every file diff has an excluded extension.
    AllExcluded,
}

/// Extensions (compared in ASCII lowercase) whose file diffs are dropped.
pub open spec fn is_excluded_extension(ext: Seq<char>) -> bool {
    ext == "md"@ || ext == "markdown"@
}

/// The first line of a file diff.
pub open spec fn diff_header() -> Seq<char> {
    "diff --git "@
}

/// A file-diff boundary: a newline followed by a diff header.
pub open spec fn chunk_boundary() -> Seq<char> {
    "\ndiff --git "@
}

/// The file diffs of `s[start..]`, given that no boundary starts in `s[start..i]`.
/// A chunk ends just after the newline of each boundary.
pub open spec fn chunks_from(s: Seq<char>, start: int, i: int) -> Seq<Seq<char>>
    decreases s.len() - i,
{
    if i < 0 || i >= s.len() {
        seq![s.subrange(start, s.len() as int)]
    } else if occurs_at(s, chunk_boundary(), i) {
        seq![s.subrange(start, i + 1)] + chunks_from(s, i + 1, i + 1)
    } else {
        chunks_from(s, start, i + 1)
    }
}

/// The file diffs of `s`; none when `s` does not start with a diff header.
pub open spec fn file_diffs(s: Seq<char>) -> Seq<Seq<char>> {
    if starts_with(s, diff_header()) {
        chunks_from(s, 0, 0)
    } else {
        seq![]
    }
}

/// The rest of the first line of `ls[k..]` that starts with `p`.
pub open spec fn first_after_prefix(ls: Seq<Seq<char>>, p: Seq<char>, k: int) -> Option<
    Seq<char>,
>
    decreases ls.len() - k,
{
    if k < 0 || k >= ls.len() {
        None
    } else if starts_with(ls[k], p) {
        Some(ls[k].skip(p.len() as int))
    } else {
        first_after_prefix(ls, p, k + 1)
    }
}

/// The path a file diff is judged by: the new path (`+++ b/`), else the old
/// path (`--- a/`), else empty.
pub open spec fn chunk_path(chunk: Seq<char>) -> Seq<char> {
    match first_after_prefix(lines(chunk), "+++ b/"@, 0) {
        Some(p) => p,
        None => match first_after_prefix(lines(chunk), "--- a/"@, 0) {
            Some(p) => p,
            None => seq![],
        },
    }
}

/// What follows the last `.` of `path` (all of `path` when it has none):
/// `path.rsplit('.').next()`.
pub open spec fn extension(path: Seq<char>) -> Seq<char> {
    match last_index_before(path, '.', path.len() as int) {
        Some(k) => path.skip(k + 1),
        None => path,
    }
}

/// Whether a file diff is to be dropped.
pub open spec fn chunk_is_excluded(chunk: Seq<char>) -> bool {
    let path = chunk_path(chunk);
    path.len() > 0 && is_excluded_extension(lower(extension(path)))
}

/// The file diffs that survive the filter.
pub open spec fn kept_chunks(chunks: Seq<Seq<char>>) -> Seq<Seq<char>> {
    chunks.filter(|c: Seq<char>| !chunk_is_excluded(c))
}

/// git metadata lines that carry no review signal.
pub open spec fn is_diff_metadata(l: Seq<char>) -> bool {
    starts_with(l, "similarity index "@) || starts_with(l, "dissimilarity index "@)
        || starts_with(l, "index "@) || starts_with(l, "new file mode "@) || starts_with(
        l,
        "deleted file mode "@,
    ) || starts_with(l, "old mode "@) || starts_with(l, "new mode "@) || starts_with(
        l,
        "rename from "@,
    ) || starts_with(l, "rename to "@) || starts_with(l, "copy from "@) || starts_with(
        l,
        "copy to "@,
    )
}

/// The lines of `diff` that are not metadata, each followed by a newline.
pub open spec fn stripped_diff(diff: Seq<char>) -> Seq<char> {
    join_lines_nl(lines(diff).filter(|l: Seq<char>| !is_diff_metadata(l)))
}

proof fn lemma_concat_prepend(a: Seq<char>, rest: Seq<Seq<char>>)
    ensures
        concat(seq![a] + rest) == a + concat(rest),
    decreases rest.len(),
{
    if rest.len() == 0 {
        assert(seq![a] + rest == seq![a]);
        assert(seq![a].drop_last() == Seq::<Seq<char>>::empty());
        assert(concat(seq![a]) == concat(Seq::<Seq<char>>::empty()) + a);
        assert(Seq::<char>::empty() + a =~= a);
        assert(a + Seq::<char>::empty() =~= a);
    } else {
        lemma_concat_prepend(a, rest.drop_last());
        assert((seq![a] + rest).drop_last() == seq![a] + rest.drop_last());
        assert((seq![a] + rest).last() == rest.last());
        assert(concat(seq![a] + rest) == concat(seq![a] + rest.drop_last()) + rest.last());
        assert(concat(rest) == concat(rest.drop_last()) + rest.last());
        assert((a + concat(rest.drop_last())) + rest.last() =~= a + (concat(rest.drop_last())
            + rest.last()));
    }
}

proof fn lemma_chunks_from_concat(s: Seq<char>, start: int, i: int)
    requires
        0 <= start <= i <= s.len(),
    ensures
        concat(chunks_from(s, start, i)) == s.subrange(start, s.len() as int),
        chunks_from(s, start, i).len() > 0,
    decreases s.len() - i,
{
    if i >= s.len() {
        let x = s.subrange(start, s.len() as int);
        assert(seq![x].drop_last() == Seq::<Seq<char>>::empty());
        assert(concat(seq![x]) == concat(Seq::<Seq<char>>::empty()) + x);
        assert(Seq::<char>::empty() + x =~= x);
    } else if occurs_at(s, chunk_boundary(), i) {
        lemma_chunks_from_concat(s, i + 1, i + 1);
        lemma_concat_prepend(s.subrange(start, i + 1), chunks_from(s, i + 1, i + 1));
        assert(s.subrange(start, i + 1) + s.subrange(i + 1, s.len() as int) == s.subrange(
            start,
            s.len() as int,
        ));
    } else {
        lemma_chunks_from_concat(s, start, i + 1);
    }
}

/// Splitting into file diffs loses nothing: the file diffs of a `--git` diff
/// concatenate back to the diff.
pub proof fn lemma_file_diffs_concat(s: Seq<char>)
    requires
        starts_with(s, diff_header()),
    ensures
        concat(file_diffs(s)) == s,
        file_diffs(s).len() > 0,
{
    lemma_chunks_from_concat(s, 0, 0);
    assert(s.subrange(0, s.len() as int) == s);
}

/// Spans of the file diffs of `v` (empty when `v` is not a `--git` diff).
fn file_diff_spans(v: &[char]) -> (r: Vec<(usize, usize)>)
    ensures
        r@.len() == file_diffs(v@).len(),
        forall|k: int| 0 <= k < r@.len() ==> (#[trigger] r@[k]).0 <= r@[k].1 <= v@.len(),
        forall|k: int| 0 <= k < r@.len() ==> #[trigger] span(v@, r@[k]) == file_diffs(v@)[k],
{
    let ghost s = v@;
    let header = chars_of("diff --git ");
    let boundary = chars_of("\ndiff --git ");
    let mut r: Vec<(usize, usize)> = Vec::new();
    if !span_starts_with(v, 0, v.len(), &header) {
        assert(v@.subrange(0, v@.len() as int) == v@);
        return r;
    }
    assert(v@.subrange(0, v@.len() as int) == v@);
    let mut start: usize = 0;
    let mut i: usize = 0;
    while i < v.len()
        invariant
            s == v@,
            boundary@ == chunk_boundary(),
            start <= i <= v@.len(),
            forall|k: int| 0 <= k < r@.len() ==> (#[trigger] r@[k]).0 <= r@[k].1 <= v@.len(),
            file_diffs(s) == r@.map_values(|x: (usize, usize)| span(s, x)) + chunks_from(
                s,
                start as int,
                i as int,
            ),
        decreases v@.len() - i,
    {
        if occurs_at_exec(v, &boundary, i) {
            let ghost old_r = r@;
            r.push((start, i + 1));
            assert(r@.map_values(|x: (usize, usize)| span(s, x)) == old_r.map_values(
                |x: (usize, usize)| span(s, x),
            ).push(span(s, (start, (i + 1) as usize))));
            start = i + 1;
        }
        i += 1;
    }
    let ghost old_r = r@;
    r.push((start, v.len()));
    assert(r@.map_values(|x: (usize, usize)| span(s, x)) == old_r.map_values(
        |x: (usize, usize)| span(s, x),
    ).push(span(s, (start, v.len()))));
    assert forall|k: int| 0 <= k < r@.len() implies #[trigger] span(v@, r@[k]) == file_diffs(
        v@,
    )[k] by {
        assert(r@.map_values(|x: (usize, usize)| span(s, x))[k] == span(s, r@[k]));
    }
    r
}

/// Splits a diff into its file diffs at each line that starts with
/// `diff --git `; empty when the input does not start with one.
pub fn split_into_file_diffs(raw_diff: &str) -> (r: Vec<String>)
    ensures
        views(r@) == file_diffs(raw_diff@),
{
    let v = chars_of(raw_diff);
    let spans = file_diff_spans(&v);
    let r = strings_of_spans(&v, &spans);
    assert(views(r@) =~= file_diffs(raw_diff@));
    r
}

/// The rest of the first line in `spans` (lines of `v`) that starts with `p`,
/// as a span of `v`.
fn first_after_prefix_span(v: &[char], spans: &Vec<(usize, usize)>, p: &[char]) -> (r: Option<
    (usize, usize),
>)
    requires
        forall|k: int| 0 <= k < spans@.len() ==> (#[trigger] spans@[k]).0 <= spans@[k].1 <= v@.len(),
    ensures
        r matches Some(x) ==> x.0 <= x.1 <= v@.len() && first_after_prefix(
            spans@.map_values(|x: (usize, usize)| span(v@, x)),
            p@,
            0,
        ) == Some(span(v@, x)),
        r is None ==> first_after_prefix(spans@.map_values(|x: (usize, usize)| span(v@, x)), p@, 0)
            is None,
{
    let ghost ls = spans@.map_values(|x: (usize, usize)| span(v@, x));
    let mut k: usize = 0;
    while k < spans.len()
        invariant
            k <= spans@.len(),
            ls == spans@.map_values(|x: (usize, usize)| span(v@, x)),
            forall|j: int| 0 <= j < spans@.len() ==> (#[trigger] spans@[j]).0 <= spans@[j].1 <= v@.len(),
            first_after_prefix(ls, p@, 0) == first_after_prefix(ls, p@, k as int),
        decreases spans@.len() - k,
    {
        let (a, b) = spans[k];
        assert(ls[k as int] == span(v@, spans@[k as int]));
        if span_starts_with(v, a, b, p) {
            assert(v@.subrange(a as int, b as int).skip(p@.len() as int) == v@.subrange(
                a + p@.len(),
                b as int,
            ));
            return Some((a + p.len(), b));
        }
        k += 1;
    }
    None
}

/// Whether a file diff's path (new path first, else old path) has an
/// excluded extension, compared in ASCII lowercase.
pub fn chunk_has_excluded_extension(chunk: &str) -> (b: bool)
    ensures
        b == chunk_is_excluded(chunk@),
{
    let v = chars_of(chunk);
    assert(v@.subrange(0, v@.len() as int) == v@);
    chunk_span_is_excluded(&v, 0, v.len())
}

fn chunk_span_is_excluded(v: &[char], lo: usize, hi: usize) -> (b: bool)
    requires
        lo <= hi <= v@.len(),
    ensures
        b == chunk_is_excluded(v@.subrange(lo as int, hi as int)),
{
    let c = copy_span(v, lo, hi);
    let spans = line_spans(&c);
    assert(spans@.map_values(|x: (usize, usize)| span(c@, x)) =~= lines(c@));
    let new_p = chars_of("+++ b/");
    let old_p = chars_of("--- a/");
    let path = match first_after_prefix_span(&c, &spans, &new_p) {
        Some(x) => x,
        None => match first_after_prefix_span(&c, &spans, &old_p) {
            Some(x) => x,
            None => (0, 0),
        },
    };
    assert(span(c@, path) == chunk_path(c@));
    if path.0 == path.1 {
        return false;
    }
    let ext_start = match rfind_char(&c, path.0, path.1, '.') {
        Some(k) => k + 1,
        None => path.0,
    };
    assert(c@.subrange(ext_start as int, path.1 as int) == extension(span(c@, path)));
    let ext = lower_span(&c, ext_start, path.1);
    let md = chars_of("md");
    let markdown = chars_of("markdown");
    chars_eq(&ext, &md) || chars_eq(&ext, &markdown)
}

/// A fresh copy of `v[lo..hi]`.
fn copy_span(v: &[char], lo: usize, hi: usize) -> (r: Vec<char>)
    requires
        lo <= hi <= v@.len(),
    ensures
        r@ == v@.subrange(lo as int, hi as int),
{
    let mut r: Vec<char> = Vec::new();
    append_span(&mut r, v, lo, hi);
    r
}

/// Drops the file diffs whose path has an excluded extension.
///
/// A diff that does not start with `diff --git ` passes through unchanged;
/// when every file diff is dropped the result is `AllExcluded`.
pub fn filter_excluded_hunks(raw_diff: &str) -> (r: FilterResult)
    ensures
        file_diffs(raw_diff@).len() == 0 ==> (r matches FilterResult::Kept(t) && t@ == raw_diff@),
        file_diffs(raw_diff@).len() > 0 && kept_chunks(file_diffs(raw_diff@)).len() == 0 ==> (r is AllExcluded),
        file_diffs(raw_diff@).len() > 0 && kept_chunks(file_diffs(raw_diff@)).len() > 0 ==> (r matches FilterResult::Kept(t)
            && t@ == concat(kept_chunks(file_diffs(raw_diff@)))),
{
    let v = chars_of(raw_diff);
    let spans = file_diff_spans(&v);
    let ghost chunks = file_diffs(v@);
    if spans.len() == 0 {
        return FilterResult::Kept(string_of(&v));
    }
    let mut out: Vec<char> = Vec::new();
    let mut kept: usize = 0;
    let mut k: usize = 0;
    while k < spans.len()
        invariant
            k <= spans@.len(),
            spans@.len() == chunks.len(),
            chunks == file_diffs(v@),
            forall|j: int| 0 <= j < spans@.len() ==> (#[trigger] spans@[j]).0 <= spans@[j].1 <= v@.len(),
            forall|j: int| 0 <= j < spans@.len() ==> #[trigger] span(v@, spans@[j]) == chunks[j],
            out@ == concat(kept_chunks(chunks.take(k as int))),
            kept as int == kept_chunks(chunks.take(k as int)).len(),
            kept <= k,
        decreases spans@.len() - k,
    {
        let (a, b) = spans[k];
        let excluded = chunk_span_is_excluded(&v, a, b);
        proof {
            assert(span(v@, spans@[k as int]) == chunks[k as int]);
            assert(chunks.take(k + 1).drop_last() == chunks.take(k as int));
            assert(chunks.take(k + 1).last() == chunks[k as int]);
            assert(kept_chunks(chunks.take(k + 1)) == if !chunk_is_excluded(chunks[k as int]) {
                kept_chunks(chunks.take(k as int)).push(chunks[k as int])
            } else {
                kept_chunks(chunks.take(k as int))
            }) by {
                reveal_with_fuel(Seq::filter, 1);
            }
        }
        if !excluded {
            append_span(&mut out, &v, a, b);
            proof {
                lemma_concat_push(kept_chunks(chunks.take(k as int)), chunks[k as int]);
            }
            kept += 1;
        }
        k += 1;
    }
    assert(chunks.take(spans@.len() as int) == chunks);
    if kept == 0 {
        FilterResult::AllExcluded
    } else {
        FilterResult::Kept(string_of(&out))
    }
}

/// Whether a line is git metadata (`similarity index`, `index`, modes,
/// `rename`/`copy` from/to).
pub fn is_diff_metadata_line(line: &str) -> (b: bool)
    ensures
        b == is_diff_metadata(line@),
{
    let v = chars_of(line);
    let b = span_is_metadata(&v, 0, v.len());
    assert(v@.subrange(0, v@.len() as int) == v@);
    b
}

fn span_starts_with_str(v: &[char], lo: usize, hi: usize, p: &str) -> (b: bool)
    requires
        lo <= hi <= v@.len(),
    ensures
        b == starts_with(v@.subrange(lo as int, hi as int), p@),
{
    let pv = chars_of(p);
    span_starts_with(v, lo, hi, &pv)
}

fn span_is_metadata(v: &[char], lo: usize, hi: usize) -> (b: bool)
    requires
        lo <= hi <= v@.len(),
    ensures
        b == is_diff_metadata(v@.subrange(lo as int, hi as int)),
{
    span_starts_with_str(v, lo, hi, "similarity index ") || span_starts_with_str(
        v,
        lo,
        hi,
        "dissimilarity index ",
    ) || span_starts_with_str(v, lo, hi, "index ") || span_starts_with_str(
        v,
        lo,
        hi,
        "new file mode ",
    ) || span_starts_with_str(v, lo, hi, "deleted file mode ") || span_starts_with_str(
        v,
        lo,
        hi,
        "old mode ",
    ) || span_starts_with_str(v, lo, hi, "new mode ") || span_starts_with_str(
        v,
        lo,
        hi,
        "rename from ",
    ) || span_starts_with_str(v, lo, hi, "rename to ") || span_starts_with_str(
        v,
        lo,
        hi,
        "copy from ",
    ) || span_starts_with_str(v, lo, hi, "copy to ")
}

/// Drops the metadata lines of a diff; every kept line ends with a newline.
pub fn strip_diff_metadata_lines(diff: &str) -> (r: String)
    ensures
        r@ == stripped_diff(diff@),
{
    let v = chars_of(diff);
    let spans = line_spans(&v);
    let ghost ls = lines(v@);
    let mut out: Vec<char> = Vec::new();
    let mut k: usize = 0;
    while k < spans.len()
        invariant
            k <= spans@.len(),
            spans@.len() == ls.len(),
            ls == lines(v@),
            forall|j: int| 0 <= j < spans@.len() ==> (#[trigger] spans@[j]).0 <= spans@[j].1 <= v@.len(),
            forall|j: int| 0 <= j < spans@.len() ==> #[trigger] span(v@, spans@[j]) == ls[j],
            out@ == join_lines_nl(ls.take(k as int).filter(|l: Seq<char>| !is_diff_metadata(l))),
        decreases spans@.len() - k,
    {
        let (a, b) = spans[k];
        let meta = span_is_metadata(&v, a, b);
        proof {
            assert(span(v@, spans@[k as int]) == ls[k as int]);
            assert(ls.take(k + 1).drop_last() == ls.take(k as int));
            assert(ls.take(k + 1).last() == ls[k as int]);
            assert(ls.take(k + 1).filter(|l: Seq<char>| !is_diff_metadata(l)) == if !is_diff_metadata(ls[k as int]) {
                ls.take(k as int).filter(|l: Seq<char>| !is_diff_metadata(l)).push(ls[k as int])
            } else {
                ls.take(k as int).filter(|l: Seq<char>| !is_diff_metadata(l))
            }) by {
                reveal_with_fuel(Seq::filter, 1);
            }
        }
        if !meta {
            append_span(&mut out, &v, a, b);
            out.push('\n');
            proof {
                lemma_join_lines_nl_push(
                    ls.take(k as int).filter(|l: Seq<char>| !is_diff_metadata(l)),
                    ls[k as int],
                );
            }
        }
        k += 1;
    }
    assert(ls.take(spans@.len() as int) == ls);
    string_of(&out)
}

} // verus!
