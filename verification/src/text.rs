//! Character-level text model shared by every stage.
//!
//! Strings are modelled by their views (`Seq<char>`). The spec functions here
//! state, in the most direct form, what std's `str` methods used by the stages
//! compute (`trim`, `lines`, `starts_with`, `find`, ASCII lowercase), and the
//! executable helpers are proved against them.
use vstd::prelude::*;

verus! {

// ---------------------------------------------------------------------------
// Specifications
// ---------------------------------------------------------------------------

/// Unicode `White_Space`, the property that `char::is_whitespace` tests.
pub open spec fn is_ws(c: char) -> bool {
    let u = c as u32;
    (9 <= u && u <= 13) || u == 32 || u == 0x85 || u == 0xA0 || u == 0x1680 || (0x2000 <= u
        && u <= 0x200A) || u == 0x2028 || u == 0x2029 || u == 0x202F || u == 0x205F || u == 0x3000
}

/// ASCII lowercase of one character (`char::to_ascii_lowercase`).
pub open spec fn lower_char(c: char) -> char {
    if 'A' <= c && c <= 'Z' {
        ((c as u32) + 32) as char
    } else {
        c
    }
}

/// ASCII lowercase of a string (`str::to_ascii_lowercase`).
pub open spec fn lower(s: Seq<char>) -> Seq<char> {
    s.map_values(|c: char| lower_char(c))
}

/// First index at or after `i` whose character is not whitespace (or `s.len()`).
pub open spec fn skip_ws_from(s: Seq<char>, i: int) -> int
    decreases s.len() - i,
{
    if 0 <= i < s.len() && is_ws(s[i]) {
        skip_ws_from(s, i + 1)
    } else {
        i
    }
}

/// Index just past the last non-whitespace character at or before `j` (or 0).
pub open spec fn skip_ws_back(s: Seq<char>, j: int) -> int
    decreases j,
{
    if 0 < j <= s.len() && is_ws(s[j - 1]) {
        skip_ws_back(s, j - 1)
    } else {
        j
    }
}

/// `str::trim_start`.
pub open spec fn trim_start(s: Seq<char>) -> Seq<char> {
    s.skip(skip_ws_from(s, 0))
}

/// `str::trim_end`.
pub open spec fn trim_end(s: Seq<char>) -> Seq<char> {
    s.take(skip_ws_back(s, s.len() as int))
}

/// `str::trim`.
pub open spec fn trim(s: Seq<char>) -> Seq<char> {
    trim_end(trim_start(s))
}

/// `p` occurs in `s` at position `i`.
pub open spec fn occurs_at(s: Seq<char>, p: Seq<char>, i: int) -> bool {
    0 <= i && i + p.len() <= s.len() && s.subrange(i, i + p.len()) == p
}

/// `str::starts_with`.
pub open spec fn starts_with(s: Seq<char>, p: Seq<char>) -> bool {
    occurs_at(s, p, 0)
}

/// `str::ends_with`.
pub open spec fn ends_with(s: Seq<char>, p: Seq<char>) -> bool {
    p.len() <= s.len() && occurs_at(s, p, s.len() - p.len())
}

/// Leftmost occurrence of `p` in `s` at or after `i`, if any (`str::find` from `i`).
pub open spec fn find_from(s: Seq<char>, p: Seq<char>, i: int) -> Option<int>
    decreases s.len() + 1 - i,
{
    if i < 0 || i + p.len() > s.len() {
        None
    } else if occurs_at(s, p, i) {
        Some(i)
    } else {
        find_from(s, p, i + 1)
    }
}

/// `str::find`.
pub open spec fn find(s: Seq<char>, p: Seq<char>) -> Option<int> {
    find_from(s, p, 0)
}

/// `str::contains`.
pub open spec fn contains(s: Seq<char>, p: Seq<char>) -> bool {
    find(s, p) is Some
}

/// Index of the last occurrence of `c` strictly before `j`, if any.
pub open spec fn last_index_before(s: Seq<char>, c: char, j: int) -> Option<int>
    decreases j,
{
    if j <= 0 || j > s.len() {
        None
    } else if s[j - 1] == c {
        Some(j - 1)
    } else {
        last_index_before(s, c, j - 1)
    }
}

/// A line without its `\r` when it was ended by `\r\n`.
pub open spec fn strip_cr(l: Seq<char>) -> Seq<char> {
    if l.len() > 0 && l.last() == '\r' {
        l.drop_last()
    } else {
        l
    }
}

/// The lines of `s[start..]` given that `s[start..i]` holds no newline: what
/// `str::lines` yields (a final line ending is optional, `\r\n` counts as one).
pub open spec fn lines_from(s: Seq<char>, start: int, i: int) -> Seq<Seq<char>>
    decreases s.len() - i,
{
    if i < 0 || i >= s.len() {
        if 0 <= start < s.len() {
            seq![s.subrange(start, s.len() as int)]
        } else {
            seq![]
        }
    } else if s[i] == '\n' {
        seq![strip_cr(s.subrange(start, i))] + lines_from(s, i + 1, i + 1)
    } else {
        lines_from(s, start, i + 1)
    }
}

/// `str::lines`.
pub open spec fn lines(s: Seq<char>) -> Seq<Seq<char>> {
    lines_from(s, 0, 0)
}

/// The concatenation of a sequence of strings.
pub open spec fn concat(cs: Seq<Seq<char>>) -> Seq<char>
    decreases cs.len(),
{
    if cs.len() == 0 {
        seq![]
    } else {
        concat(cs.drop_last()) + cs.last()
    }
}

/// Each string followed by a newline, concatenated.
pub open spec fn join_lines_nl(cs: Seq<Seq<char>>) -> Seq<char>
    decreases cs.len(),
{
    if cs.len() == 0 {
        seq![]
    } else {
        join_lines_nl(cs.drop_last()) + cs.last() + seq!['\n']
    }
}

/// The strings joined with `sep` between them (`[..].join(sep)`).
pub open spec fn join(cs: Seq<Seq<char>>, sep: Seq<char>) -> Seq<char>
    decreases cs.len(),
{
    if cs.len() == 0 {
        seq![]
    } else if cs.len() == 1 {
        cs[0]
    } else {
        join(cs.drop_last(), sep) + sep + cs.last()
    }
}

/// The views of a sequence of owned strings.
pub open spec fn views(v: Seq<String>) -> Seq<Seq<char>> {
    v.map_values(|s: String| s@)
}

/// The decimal digits `'0'..='9'`.
pub open spec fn is_digit(c: char) -> bool {
    '0' <= c && c <= '9'
}

/// The value of a string of decimal digits.
pub open spec fn digits_value(s: Seq<char>) -> nat
    decreases s.len(),
{
    if s.len() == 0 {
        0
    } else {
        digits_value(s.drop_last()) * 10 + ((s.last() as u32) - ('0' as u32)) as nat
    }
}

/// The views of a sequence of character vectors.
pub open spec fn vviews(v: Seq<Vec<char>>) -> Seq<Seq<char>> {
    v.map_values(|x: Vec<char>| x@)
}

/// ASCII case-insensitive equality (`str::eq_ignore_ascii_case`).
pub open spec fn eq_ignore_case(a: Seq<char>, b: Seq<char>) -> bool {
    lower(a) == lower(b)
}

/// The character span `(lo, hi)` within `s`.
pub open spec fn span(s: Seq<char>, r: (usize, usize)) -> Seq<char> {
    s.subrange(r.0 as int, r.1 as int)
}

/// The pieces of `s[start..]` between the `c`s, given that `s[start..i]` holds no `c`.
pub open spec fn split_char_from(s: Seq<char>, c: char, start: int, i: int) -> Seq<Seq<char>>
    decreases s.len() - i,
{
    if i < 0 || i >= s.len() {
        seq![s.subrange(start, s.len() as int)]
    } else if s[i] == c {
        seq![s.subrange(start, i)] + split_char_from(s, c, i + 1, i + 1)
    } else {
        split_char_from(s, c, start, i + 1)
    }
}

/// `str::split(c)`.
pub open spec fn split_char(s: Seq<char>, c: char) -> Seq<Seq<char>> {
    split_char_from(s, c, 0, 0)
}

/// `acc` followed by the items of `xs` that are not in it yet, in order.
pub open spec fn append_new(acc: Seq<Seq<char>>, xs: Seq<Seq<char>>) -> Seq<Seq<char>>
    decreases xs.len(),
{
    if xs.len() == 0 {
        acc
    } else {
        let a = append_new(acc, xs.drop_last());
        if a.contains(xs.last()) {
            a
        } else {
            a.push(xs.last())
        }
    }
}

/// The character of a decimal digit.
pub open spec fn digit_char(d: nat) -> char {
    (d + 48) as char
}

/// The decimal numeral of `n`.
pub open spec fn decimal(n: nat) -> Seq<char>
    decreases n,
{
    if n < 10 {
        seq![digit_char(n)]
    } else {
        decimal(n / 10).push(digit_char(n % 10))
    }
}

// ---------------------------------------------------------------------------
// Lemmas
// ---------------------------------------------------------------------------

pub proof fn lemma_skip_ws_from_bounds(s: Seq<char>, i: int)
    requires
        0 <= i <= s.len(),
    ensures
        i <= skip_ws_from(s, i) <= s.len(),
        skip_ws_from(s, i) < s.len() ==> !is_ws(s[skip_ws_from(s, i)]),
    decreases s.len() - i,
{
    if i < s.len() && is_ws(s[i]) {
        lemma_skip_ws_from_bounds(s, i + 1);
    }
}

pub proof fn lemma_skip_ws_back_bounds(s: Seq<char>, j: int)
    requires
        0 <= j <= s.len(),
    ensures
        0 <= skip_ws_back(s, j) <= j,
        skip_ws_back(s, j) > 0 ==> !is_ws(s[skip_ws_back(s, j) - 1]),
    decreases j,
{
    if 0 < j && is_ws(s[j - 1]) {
        lemma_skip_ws_back_bounds(s, j - 1);
    }
}

pub proof fn lemma_concat_push(cs: Seq<Seq<char>>, c: Seq<char>)
    ensures
        concat(cs.push(c)) == concat(cs) + c,
{
    assert(cs.push(c).drop_last() == cs);
}

pub proof fn lemma_join_lines_nl_push(cs: Seq<Seq<char>>, c: Seq<char>)
    ensures
        join_lines_nl(cs.push(c)) == join_lines_nl(cs) + c + seq!['\n'],
{
    assert(cs.push(c).drop_last() == cs);
}

pub proof fn lemma_join_push(cs: Seq<Seq<char>>, c: Seq<char>, sep: Seq<char>)
    ensures
        join(cs.push(c), sep) == if cs.len() == 0 {
            c
        } else {
            join(cs, sep) + sep + c
        },
{
    assert(cs.push(c).drop_last() == cs);
}

pub proof fn lemma_digits_value_push(s: Seq<char>, c: char)
    ensures
        digits_value(s.push(c)) == digits_value(s) * 10 + ((c as u32) - ('0' as u32)) as nat,
{
    assert(s.push(c).drop_last() == s);
}

/// An item is in `append_new(acc, xs)` exactly when it is in `acc` or in `xs`.
pub proof fn lemma_append_new_contains(acc: Seq<Seq<char>>, xs: Seq<Seq<char>>, x: Seq<char>)
    ensures
        append_new(acc, xs).contains(x) <==> (acc.contains(x) || xs.contains(x)),
    decreases xs.len(),
{
    if xs.len() > 0 {
        lemma_append_new_contains(acc, xs.drop_last(), x);
        let a = append_new(acc, xs.drop_last());
        assert(xs =~= xs.drop_last().push(xs.last()));
        if xs.contains(x) && !xs.drop_last().contains(x) {
            assert(x == xs.last()) by {
                let i = choose|i: int| 0 <= i < xs.len() && xs[i] == x;
                if i < xs.len() - 1 {
                    assert(xs.drop_last()[i] == x);
                }
            }
        }
        if xs.drop_last().contains(x) {
            let i = choose|i: int| 0 <= i < xs.drop_last().len() && xs.drop_last()[i] == x;
            assert(xs[i] == x);
        }
        if !a.contains(xs.last()) {
            let p = a.push(xs.last());
            if a.contains(x) {
                let i = choose|i: int| 0 <= i < a.len() && a[i] == x;
                assert(p[i] == x);
            }
            if p.contains(x) && x != xs.last() {
                let i = choose|i: int| 0 <= i < p.len() && p[i] == x;
                assert(a[i] == x);
            }
            assert(p[a.len() as int] == xs.last());
        }
    }
}

/// `append_new` adds no repeat to a list without repeats.
pub proof fn lemma_append_new_no_dups(acc: Seq<Seq<char>>, xs: Seq<Seq<char>>)
    requires
        acc.no_duplicates(),
    ensures
        append_new(acc, xs).no_duplicates(),
    decreases xs.len(),
{
    if xs.len() > 0 {
        lemma_append_new_no_dups(acc, xs.drop_last());
        let a = append_new(acc, xs.drop_last());
        if !a.contains(xs.last()) {
            let p = a.push(xs.last());
            assert forall|i: int, j: int| 0 <= i < p.len() && 0 <= j < p.len() && i != j implies p[i]
                != p[j] by {
                if i == a.len() {
                    assert(a[j] == p[j]);
                } else if j == a.len() {
                    assert(a[i] == p[i]);
                }
            }
        }
    }
}

// ---------------------------------------------------------------------------
// Executable helpers
// ---------------------------------------------------------------------------

/// The characters of `s`, in order.
pub fn chars_of(s: &str) -> (v: Vec<char>)
    ensures
        v@ == s@,
{
    let mut v: Vec<char> = Vec::new();
    for c in it: s.chars()
        invariant
            v@ == it.seq().take(it.index() as int),
            it.seq() == s@,
    {
        v.push(c);
    }
    v
}

/// `String::push`: appends one character.
#[verifier::external_body]
fn push_char(s: &mut String, c: char)
    ensures
        final(s)@ == old(s)@.push(c),
{
    s.push(c);
}

/// The string whose characters are `v`.
pub fn string_of(v: &[char]) -> (s: String)
    ensures
        s@ == v@,
{
    string_of_span(v, 0, v.len())
}

/// The string whose characters are `v[lo..hi]`.
pub fn string_of_span(v: &[char], lo: usize, hi: usize) -> (s: String)
    requires
        lo <= hi <= v@.len(),
    ensures
        s@ == v@.subrange(lo as int, hi as int),
{
    let mut s = String::new();
    let mut i: usize = lo;
    while i < hi
        invariant
            lo <= i <= hi <= v@.len(),
            s@ == v@.subrange(lo as int, i as int),
        decreases hi - i,
    {
        push_char(&mut s, v[i]);
        assert(v@.subrange(lo as int, i + 1) == v@.subrange(lo as int, i as int).push(
            v@[i as int],
        ));
        i += 1;
    }
    s
}

/// Appends `v[lo..hi]` to `out`.
pub fn append_span(out: &mut Vec<char>, v: &[char], lo: usize, hi: usize)
    requires
        lo <= hi <= v@.len(),
    ensures
        final(out)@ == old(out)@ + v@.subrange(lo as int, hi as int),
{
    let mut i: usize = lo;
    while i < hi
        invariant
            lo <= i <= hi <= v@.len(),
            out@ == old(out)@ + v@.subrange(lo as int, i as int),
        decreases hi - i,
    {
        out.push(v[i]);
        assert(v@.subrange(lo as int, i + 1) == v@.subrange(lo as int, i as int).push(
            v@[i as int],
        ));
        i += 1;
    }
}

/// Appends all of `v` to `out`.
pub fn append_all(out: &mut Vec<char>, v: &[char])
    ensures
        final(out)@ == old(out)@ + v@,
{
    append_span(out, v, 0, v.len());
    assert(v@.subrange(0, v@.len() as int) == v@);
}

/// Appends the characters of `s` to `out`.
pub fn append_str(out: &mut Vec<char>, s: &str)
    ensures
        final(out)@ == old(out)@ + s@,
{
    let v = chars_of(s);
    append_all(out, &v);
}

/// `char::is_whitespace`.
pub fn is_whitespace(c: char) -> (b: bool)
    ensures
        b == is_ws(c),
{
    let u = c as u32;
    (9 <= u && u <= 13) || u == 32 || u == 0x85 || u == 0xA0 || u == 0x1680 || (0x2000 <= u
        && u <= 0x200A) || u == 0x2028 || u == 0x2029 || u == 0x202F || u == 0x205F || u == 0x3000
}

/// `char::to_ascii_lowercase`.
pub fn to_lower_char(c: char) -> (r: char)
    ensures
        r == lower_char(c),
{
    if 'A' <= c && c <= 'Z' {
        ((c as u8) + 32) as char
    } else {
        c
    }
}

/// ASCII lowercase of `v[lo..hi]`.
pub fn lower_span(v: &[char], lo: usize, hi: usize) -> (r: Vec<char>)
    requires
        lo <= hi <= v@.len(),
    ensures
        r@ == lower(v@.subrange(lo as int, hi as int)),
{
    let mut r: Vec<char> = Vec::new();
    let mut i: usize = lo;
    while i < hi
        invariant
            lo <= i <= hi <= v@.len(),
            r@ == lower(v@.subrange(lo as int, i as int)),
        decreases hi - i,
    {
        r.push(to_lower_char(v[i]));
        assert(lower(v@.subrange(lo as int, i + 1)) == lower(v@.subrange(lo as int, i as int)).push(
            lower_char(v@[i as int]),
        ));
        i += 1;
    }
    r
}

/// The span of `v[lo..hi]` that `trim` keeps.
pub fn trim_span(v: &[char], lo: usize, hi: usize) -> (r: (usize, usize))
    requires
        lo <= hi <= v@.len(),
    ensures
        lo <= r.0 <= r.1 <= hi,
        span(v@, r) == trim(v@.subrange(lo as int, hi as int)),
        span(v@, r) == trim_end(trim_start(v@.subrange(lo as int, hi as int))),
{
    let ghost sub = v@.subrange(lo as int, hi as int);
    let mut a: usize = lo;
    while a < hi && is_whitespace(v[a])
        invariant
            lo <= a <= hi <= v@.len(),
            sub == v@.subrange(lo as int, hi as int),
            skip_ws_from(sub, 0) == skip_ws_from(sub, a - lo),
        decreases hi - a,
    {
        a += 1;
    }
    let ghost ts = sub.skip(a - lo);
    assert(ts == v@.subrange(a as int, hi as int));
    let mut b: usize = hi;
    while b > a && is_whitespace(v[b - 1])
        invariant
            lo <= a <= b <= hi <= v@.len(),
            ts == v@.subrange(a as int, hi as int),
            skip_ws_back(ts, ts.len() as int) == skip_ws_back(ts, b - a),
        decreases b,
    {
        b -= 1;
    }
    assert(ts.take(b - a) == v@.subrange(a as int, b as int));
    (a, b)
}

/// The span of `v[lo..hi]` that `trim_end` keeps.
pub fn trim_end_span(v: &[char], lo: usize, hi: usize) -> (b: usize)
    requires
        lo <= hi <= v@.len(),
    ensures
        lo <= b <= hi,
        v@.subrange(lo as int, b as int) == trim_end(v@.subrange(lo as int, hi as int)),
{
    let ghost ts = v@.subrange(lo as int, hi as int);
    let mut b: usize = hi;
    while b > lo && is_whitespace(v[b - 1])
        invariant
            lo <= b <= hi <= v@.len(),
            ts == v@.subrange(lo as int, hi as int),
            skip_ws_back(ts, ts.len() as int) == skip_ws_back(ts, b - lo),
        decreases b,
    {
        b -= 1;
    }
    assert(ts.take(b - lo) == v@.subrange(lo as int, b as int));
    b
}

/// The start of `v[lo..hi]` that `trim_start` keeps.
pub fn trim_start_span(v: &[char], lo: usize, hi: usize) -> (a: usize)
    requires
        lo <= hi <= v@.len(),
    ensures
        lo <= a <= hi,
        v@.subrange(a as int, hi as int) == trim_start(v@.subrange(lo as int, hi as int)),
{
    let ghost sub = v@.subrange(lo as int, hi as int);
    let mut a: usize = lo;
    while a < hi && is_whitespace(v[a])
        invariant
            lo <= a <= hi <= v@.len(),
            sub == v@.subrange(lo as int, hi as int),
            skip_ws_from(sub, 0) == skip_ws_from(sub, a - lo),
        decreases hi - a,
    {
        a += 1;
    }
    assert(sub.skip(a - lo) == v@.subrange(a as int, hi as int));
    a
}

/// Whether `p` occurs in `v` at position `i`.
pub fn occurs_at_exec(v: &[char], p: &[char], i: usize) -> (b: bool)
    ensures
        b == occurs_at(v@, p@, i as int),
{
    if i > v.len() || p.len() > v.len() - i {
        return false;
    }
    let mut k: usize = 0;
    while k < p.len()
        invariant
            i + p@.len() <= v@.len() <= usize::MAX,
            k <= p@.len(),
            forall|j: int| 0 <= j < k ==> v@[i + j] == p@[j],
        decreases p@.len() - k,
    {
        if v[i + k] != p[k] {
            assert(v@.subrange(i as int, i + p@.len())[k as int] != p@[k as int]);
            return false;
        }
        k += 1;
    }
    assert(v@.subrange(i as int, i + p@.len()) == p@);
    true
}

/// Whether `v[lo..hi]` starts with `p`.
pub fn span_starts_with(v: &[char], lo: usize, hi: usize, p: &[char]) -> (b: bool)
    requires
        lo <= hi <= v@.len(),
    ensures
        b == starts_with(v@.subrange(lo as int, hi as int), p@),
{
    let ghost sub = v@.subrange(lo as int, hi as int);
    if p.len() > hi - lo {
        return false;
    }
    let r = occurs_at_exec(v, p, lo);
    assert(sub.subrange(0, p@.len() as int) == v@.subrange(lo as int, lo + p@.len()));
    r
}

/// Whether `v[lo..hi]` ends with `p`.
pub fn span_ends_with(v: &[char], lo: usize, hi: usize, p: &[char]) -> (b: bool)
    requires
        lo <= hi <= v@.len(),
    ensures
        b == ends_with(v@.subrange(lo as int, hi as int), p@),
{
    let ghost sub = v@.subrange(lo as int, hi as int);
    if p.len() > hi - lo {
        return false;
    }
    let r = occurs_at_exec(v, p, hi - p.len());
    assert(sub.subrange(sub.len() - p@.len(), sub.len() as int) == v@.subrange(
        hi - p@.len(),
        hi as int,
    ));
    r
}

/// Whether `v[lo..hi]` equals `p`.
pub fn span_eq(v: &[char], lo: usize, hi: usize, p: &[char]) -> (b: bool)
    requires
        lo <= hi <= v@.len(),
    ensures
        b == (v@.subrange(lo as int, hi as int) == p@),
{
    if hi - lo != p.len() {
        return false;
    }
    let r = occurs_at_exec(v, p, lo);
    r
}

/// Whether two character sequences are equal.
pub fn chars_eq(a: &[char], b: &[char]) -> (r: bool)
    ensures
        r == (a@ == b@),
{
    let r = span_eq(a, 0, a.len(), b);
    assert(a@.subrange(0, a@.len() as int) == a@);
    r
}

/// Leftmost occurrence of `p` in `v[..hi]` at or after `i`.
pub fn find_from_exec(v: &[char], hi: usize, p: &[char], i: usize) -> (r: Option<usize>)
    requires
        hi <= v@.len(),
    ensures
        r matches Some(k) ==> find_from(v@.subrange(0, hi as int), p@, i as int) == Some(k as int),
        r is None ==> find_from(v@.subrange(0, hi as int), p@, i as int) is None,
{
    let ghost s = v@.subrange(0, hi as int);
    if p.len() > hi || i > hi - p.len() {
        return None;
    }
    let mut k: usize = i;
    while k <= hi - p.len()
        invariant
            hi <= v@.len(),
            p@.len() <= hi,
            s == v@.subrange(0, hi as int),
            i <= k,
            find_from(s, p@, i as int) == find_from(s, p@, k as int),
        decreases hi + 1 - k,
    {
        if occurs_at_exec(v, p, k) {
            assert(s.subrange(k as int, k + p@.len()) == v@.subrange(k as int, k + p@.len()));
            return Some(k);
        }
        assert(s.subrange(k as int, k + p@.len()) == v@.subrange(k as int, k + p@.len()));
        if k == hi - p.len() {
            assert(find_from(s, p@, k + 1) is None);
            return None;
        }
        k += 1;
    }
    None
}

/// Index of the last `c` in `v[lo..hi]`, as an index into `v`.
pub fn rfind_char(v: &[char], lo: usize, hi: usize, c: char) -> (r: Option<usize>)
    requires
        lo <= hi <= v@.len(),
    ensures
        r matches Some(k) ==> lo <= k < hi && last_index_before(v@.subrange(lo as int, hi as int), c, (hi - lo) as int) == Some(k - lo),
        r is None ==> last_index_before(v@.subrange(lo as int, hi as int), c, (hi - lo) as int) is None,
{
    let ghost sub = v@.subrange(lo as int, hi as int);
    let mut j: usize = hi;
    while j > lo
        invariant
            lo <= j <= hi <= v@.len(),
            sub == v@.subrange(lo as int, hi as int),
            last_index_before(sub, c, (hi - lo) as int) == last_index_before(sub, c, j - lo),
        decreases j,
    {
        if v[j - 1] == c {
            return Some(j - 1);
        }
        j -= 1;
    }
    None
}

/// The spans of the lines of `v` (`str::lines`), as `(start, end)` index pairs.
pub fn line_spans(v: &[char]) -> (r: Vec<(usize, usize)>)
    ensures
        r@.len() == lines(v@).len(),
        forall|k: int| 0 <= k < r@.len() ==> (#[trigger] r@[k]).0 <= r@[k].1 <= v@.len(),
        forall|k: int| 0 <= k < r@.len() ==> #[trigger] span(v@, r@[k]) == lines(v@)[k],
{
    let ghost s = v@;
    let mut r: Vec<(usize, usize)> = Vec::new();
    let mut start: usize = 0;
    let mut i: usize = 0;
    while i < v.len()
        invariant
            s == v@,
            start <= i <= v@.len(),
            forall|k: int| 0 <= k < r@.len() ==> (#[trigger] r@[k]).0 <= r@[k].1 <= v@.len(),
            lines(s) == r@.map_values(|x: (usize, usize)| span(s, x)) + lines_from(
                s,
                start as int,
                i as int,
            ),
        decreases v@.len() - i,
    {
        if v[i] == '\n' {
            let mut end = i;
            if end > start && v[end - 1] == '\r' {
                end = end - 1;
            }
            proof {
                let l = s.subrange(start as int, i as int);
                assert(strip_cr(l) == s.subrange(start as int, end as int));
            }
            let ghost old_r = r@;
            r.push((start, end));
            assert(r@.map_values(|x: (usize, usize)| span(s, x)) == old_r.map_values(
                |x: (usize, usize)| span(s, x),
            ).push(span(s, (start, end))));
            start = i + 1;
        }
        i += 1;
    }
    if start < v.len() {
        let ghost old_r = r@;
        r.push((start, v.len()));
        assert(r@.map_values(|x: (usize, usize)| span(s, x)) == old_r.map_values(
            |x: (usize, usize)| span(s, x),
        ).push(span(s, (start, v.len()))));
    } else {
        assert(r@.map_values(|x: (usize, usize)| span(s, x)) + lines_from(
            s,
            start as int,
            i as int,
        ) == r@.map_values(|x: (usize, usize)| span(s, x)));
    }
    assert forall|k: int| 0 <= k < r@.len() implies #[trigger] span(v@, r@[k]) == lines(v@)[k] by {
        assert(r@.map_values(|x: (usize, usize)| span(s, x))[k] == span(s, r@[k]));
    }
    r
}

/// The owned strings of a list of spans of `v`.
pub fn strings_of_spans(v: &[char], spans: &Vec<(usize, usize)>) -> (r: Vec<String>)
    requires
        forall|k: int| 0 <= k < spans@.len() ==> (#[trigger] spans@[k]).0 <= spans@[k].1 <= v@.len(),
    ensures
        views(r@) == spans@.map_values(|x: (usize, usize)| span(v@, x)),
{
    let mut r: Vec<String> = Vec::new();
    let mut k: usize = 0;
    while k < spans.len()
        invariant
            k <= spans@.len(),
            forall|j: int| 0 <= j < spans@.len() ==> (#[trigger] spans@[j]).0 <= spans@[j].1 <= v@.len(),
            views(r@) == spans@.take(k as int).map_values(|x: (usize, usize)| span(v@, x)),
        decreases spans@.len() - k,
    {
        let (a, b) = spans[k];
        let s = string_of_span(v, a, b);
        let ghost old_r = r@;
        r.push(s);
        assert(spans@.take(k + 1) == spans@.take(k as int).push(spans@[k as int]));
        assert(views(r@) == views(old_r).push(s@));
        assert(spans@.take(k + 1).map_values(|x: (usize, usize)| span(v@, x)) == spans@.take(
            k as int,
        ).map_values(|x: (usize, usize)| span(v@, x)).push(span(v@, spans@[k as int])));
        assert(views(r@) == spans@.take(k + 1).map_values(|x: (usize, usize)| span(v@, x)));
        k += 1;
    }
    assert(spans@.take(spans@.len() as int) == spans@);
    r
}

/// Parses a string of ASCII decimal digits (`str::parse::<u64>` on digits only).
/// `None` when `v[lo..hi]` is empty, holds a non-digit, or overflows `max`.
pub fn parse_digits(v: &[char], lo: usize, hi: usize, max: u64) -> (r: Option<u64>)
    requires
        lo <= hi <= v@.len(),
    ensures
        r matches Some(n) ==> hi > lo && (forall|j: int| lo <= j < hi ==> is_digit(#[trigger] v@[j]))
            && n == digits_value(v@.subrange(lo as int, hi as int)) && n <= max,
        r is None ==> hi == lo || (exists|j: int| lo <= j < hi && !is_digit(#[trigger] v@[j]))
            || digits_value(v@.subrange(lo as int, hi as int)) > max,
{
    if hi == lo {
        return None;
    }
    let mut n: u64 = 0;
    let mut i: usize = lo;
    let mut overflow = false;
    while i < hi
        invariant
            lo <= i <= hi <= v@.len(),
            forall|j: int| lo <= j < i ==> is_digit(#[trigger] v@[j]),
            !overflow ==> n == digits_value(v@.subrange(lo as int, i as int)) && n <= max,
            overflow ==> digits_value(v@.subrange(lo as int, i as int)) > max,
        decreases hi - i,
    {
        let c = v[i];
        if !('0' <= c && c <= '9') {
            return None;
        }
        let d = (c as u32 - '0' as u32) as u64;
        proof {
            lemma_digits_value_push(v@.subrange(lo as int, i as int), c);
            assert(v@.subrange(lo as int, i + 1) == v@.subrange(lo as int, i as int).push(c));
        }
        if !overflow {
            if d > max || n > (max - d) / 10 {
                overflow = true;
                assert(n * 10 + d > max) by (nonlinear_arith)
                    requires
                        d > max || n > (max - d) / 10,
                        d <= 9,
                ;
            } else {
                assert(n * 10 + d <= max) by (nonlinear_arith)
                    requires
                        n <= (max - d) / 10,
                        d <= max,
                ;
                n = n * 10 + d;
            }
        } else {
            assert(digits_value(v@.subrange(lo as int, i as int)) * 10 + d >= digits_value(
                v@.subrange(lo as int, i as int),
            )) by (nonlinear_arith);
        }
        i += 1;
    }
    if overflow {
        None
    } else {
        Some(n)
    }
}

/// The lines of `s` (`str::lines`), each as its own character vector.
pub fn split_lines(s: &str) -> (r: Vec<Vec<char>>)
    ensures
        vviews(r@) == lines(s@),
{
    let v = chars_of(s);
    let spans = line_spans(&v);
    let mut r: Vec<Vec<char>> = Vec::new();
    let mut k: usize = 0;
    while k < spans.len()
        invariant
            k <= spans@.len(),
            spans@.len() == lines(v@).len(),
            forall|j: int| 0 <= j < spans@.len() ==> (#[trigger] spans@[j]).0 <= spans@[j].1 <= v@.len(),
            forall|j: int| 0 <= j < spans@.len() ==> #[trigger] span(v@, spans@[j]) == lines(v@)[j],
            vviews(r@) == lines(v@).take(k as int),
        decreases spans@.len() - k,
    {
        let (a, b) = spans[k];
        let mut line: Vec<char> = Vec::new();
        append_span(&mut line, &v, a, b);
        let ghost old_r = r@;
        r.push(line);
        assert(span(v@, spans@[k as int]) == lines(v@)[k as int]);
        assert(vviews(r@) == vviews(old_r).push(line@));
        assert(lines(v@).take(k + 1) == lines(v@).take(k as int).push(lines(v@)[k as int]));
        k += 1;
    }
    assert(lines(v@).take(spans@.len() as int) == lines(v@));
    r
}

/// The characters of each string.
pub fn chars_of_all(v: &Vec<String>) -> (r: Vec<Vec<char>>)
    ensures
        vviews(r@) == views(v@),
{
    let mut r: Vec<Vec<char>> = Vec::new();
    let mut k: usize = 0;
    while k < v.len()
        invariant
            k <= v@.len(),
            vviews(r@) == views(v@).take(k as int),
        decreases v@.len() - k,
    {
        let c = chars_of(v[k].as_str());
        let ghost old_r = r@;
        r.push(c);
        assert(vviews(r@) == vviews(old_r).push(c@));
        assert(views(v@).take(k + 1) == views(v@).take(k as int).push(v@[k as int]@));
        k += 1;
    }
    assert(views(v@).take(v@.len() as int) == views(v@));
    r
}

/// ASCII case-insensitive equality of two character sequences.
pub fn eq_ignore_case_exec(a: &[char], b: &[char]) -> (r: bool)
    ensures
        r == eq_ignore_case(a@, b@),
{
    let la = lower_span(a, 0, a.len());
    let lb = lower_span(b, 0, b.len());
    assert(a@.subrange(0, a@.len() as int) == a@);
    assert(b@.subrange(0, b@.len() as int) == b@);
    chars_eq(&la, &lb)
}


/// The trimmed strings of `ls` that are not empty, in order (the
/// `map(trim).filter(non-empty)` that config lists go through).
pub open spec fn trimmed_nonempty(ls: Seq<Seq<char>>) -> Seq<Seq<char>>
    decreases ls.len(),
{
    if ls.len() == 0 {
        seq![]
    } else if trim(ls.last()).len() > 0 {
        trimmed_nonempty(ls.drop_last()).push(trim(ls.last()))
    } else {
        trimmed_nonempty(ls.drop_last())
    }
}

/// Splitting always gives at least one piece.
pub proof fn lemma_split_char_nonempty(s: Seq<char>, c: char, start: int, i: int)
    ensures
        split_char_from(s, c, start, i).len() >= 1,
    decreases s.len() - i,
{
    if i < 0 || i >= s.len() {
    } else if s[i] == c {
        lemma_split_char_nonempty(s, c, i + 1, i + 1);
    } else {
        lemma_split_char_nonempty(s, c, start, i + 1);
    }
}

/// `find_from` finds the leftmost occurrence at or after `i`, and `None`
/// means there is none.
pub proof fn lemma_find_from(s: Seq<char>, p: Seq<char>, i: int)
    requires
        0 <= i,
    ensures
        find_from(s, p, i) matches Some(k) ==> i <= k && occurs_at(s, p, k) && forall|j: int|
            i <= j < k ==> !occurs_at(s, p, j),
        find_from(s, p, i) is None ==> forall|j: int| i <= j ==> !occurs_at(s, p, j),
    decreases s.len() + 1 - i,
{
    if i + p.len() > s.len() {
    } else if occurs_at(s, p, i) {
    } else {
        lemma_find_from(s, p, i + 1);
    }
}

/// An owned copy of a string.
pub fn owned(s: &str) -> (r: String)
    ensures
        r@ == s@,
{
    let v = chars_of(s);
    string_of(&v)
}

/// `str::trim`, as an owned string.
pub fn trim_string(s: &str) -> (r: String)
    ensures
        r@ == trim(s@),
{
    let v = chars_of(s);
    let (a, b) = trim_span(&v, 0, v.len());
    assert(v@.subrange(0, v@.len() as int) == v@);
    string_of_span(&v, a, b)
}

/// The trimmed, non-empty strings of `v`, in order.
pub fn trimmed_nonempty_strings(v: &Vec<String>) -> (r: Vec<String>)
    ensures
        views(r@) == trimmed_nonempty(views(v@)),
{
    let mut r: Vec<String> = Vec::new();
    let mut i: usize = 0;
    while i < v.len()
        invariant
            i <= v@.len(),
            views(r@) == trimmed_nonempty(views(v@).take(i as int)),
        decreases v@.len() - i,
    {
        let t = trim_string(v[i].as_str());
        let ghost before = r@;
        proof {
            assert(views(v@).take(i + 1).drop_last() == views(v@).take(i as int));
            assert(views(v@).take(i + 1).last() == v@[i as int]@);
        }
        if !t.as_str().is_empty() {
            r.push(t);
            assert(views(r@) == views(before).push(t@));
        }
        i += 1;
    }
    assert(views(v@).take(v@.len() as int) == views(v@));
    r
}


/// The strings of `v` joined with `sep` between them (`[..].join(sep)`).
pub fn join_strings(v: &[String], sep: &str) -> (r: String)
    ensures
        r@ == join(views(v@), sep@),
{
    let mut out: Vec<char> = Vec::new();
    let mut i: usize = 0;
    while i < v.len()
        invariant
            i <= v@.len(),
            out@ == join(views(v@).take(i as int), sep@),
        decreases v@.len() - i,
    {
        proof {
            lemma_join_push(views(v@).take(i as int), v@[i as int]@, sep@);
            assert(views(v@).take(i + 1) == views(v@).take(i as int).push(v@[i as int]@));
        }
        if i > 0 {
            append_str(&mut out, sep);
        }
        append_str(&mut out, v[i].as_str());
        i += 1;
    }
    assert(views(v@).take(v@.len() as int) == views(v@));
    string_of(&out)
}

/// `a` followed by `b`, as an owned string.
pub fn concat_str(a: &str, b: &str) -> (r: String)
    ensures
        r@ == a@ + b@,
{
    let mut out: Vec<char> = chars_of(a);
    append_str(&mut out, b);
    string_of(&out)
}

/// The pieces of `v` between the `c`s (`str::split(c)`).
pub fn split_on_char(v: &[char], c: char) -> (r: Vec<Vec<char>>)
    ensures
        vviews(r@) == split_char(v@, c),
{
    let ghost s = v@;
    let mut r: Vec<Vec<char>> = Vec::new();
    let mut start: usize = 0;
    let mut i: usize = 0;
    while i < v.len()
        invariant
            s == v@,
            start <= i <= v@.len(),
            split_char(s, c) == vviews(r@) + split_char_from(s, c, start as int, i as int),
        decreases v@.len() - i,
    {
        if v[i] == c {
            let mut piece: Vec<char> = Vec::new();
            append_span(&mut piece, v, start, i);
            let ghost old_r = r@;
            r.push(piece);
            assert(vviews(r@) == vviews(old_r).push(s.subrange(start as int, i as int)));
            assert(split_char_from(s, c, start as int, i as int) == seq![
                s.subrange(start as int, i as int),
            ] + split_char_from(s, c, i + 1, i + 1));
            assert(vviews(old_r) + split_char_from(s, c, start as int, i as int) == vviews(r@)
                + split_char_from(s, c, i + 1, i + 1));
            start = i + 1;
        }
        i += 1;
    }
    let mut last: Vec<char> = Vec::new();
    append_span(&mut last, v, start, v.len());
    let ghost old_r = r@;
    r.push(last);
    assert(vviews(r@) == vviews(old_r).push(s.subrange(start as int, s.len() as int)));
    assert(vviews(r@) == vviews(old_r) + seq![s.subrange(start as int, s.len() as int)]);
    r
}

/// The decimal numeral of `n`.
pub fn decimal_of(n: u64) -> (s: Vec<char>)
    ensures
        s@ == decimal(n as nat),
    decreases n,
{
    let d: u8 = (n % 10) as u8;
    let c = (d + 48u8) as char;
    assert(c == digit_char((n % 10) as nat));
    if n < 10 {
        let mut s: Vec<char> = Vec::new();
        s.push(c);
        s
    } else {
        let mut s = decimal_of(n / 10);
        s.push(c);
        s
    }
}

/// `{:?}` of a string: the string in double quotes, with escapes.
pub uninterp spec fn debug_str(s: Seq<char>) -> Seq<char>;

/// `<str as Debug>::fmt` through `format!("{:?}")`: the string in double
/// quotes with its special characters escaped. The result is named, not
/// stated.
#[verifier::external_body]
pub(crate) fn debug_quote(s: &str) -> (r: String)
    ensures
        r@ == debug_str(s@),
{
    format!("{:?}", s)
}
} // verus!
