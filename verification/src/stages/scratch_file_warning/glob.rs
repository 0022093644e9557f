//! The name patterns of the scratch check: `*` matches any run of characters
//! (the empty one too); a pattern without `*` matches only itself.
//!
//! The matcher scans leftmost-first: the text before the first `*` must be a
//! prefix, each middle piece is taken at its leftmost occurrence, and the
//! rest must end with the last piece. `matches_glob` is proved equal to the
//! declarative reading of a pattern (`glob_matches`), so the leftmost choice
//! never loses a match.
use vstd::prelude::*;

use crate::text::{
    append_all, append_span, chars_eq, chars_of, ends_with, find, find_from_exec, lemma_find_from,
    occurs_at, span_ends_with, span_starts_with, starts_with, vviews,
};

verus! {

// ---------------------------------------------------------------------------
// Specifications
// ---------------------------------------------------------------------------

/// The pieces of `s[start..]` between `*`s, given that `s[start..i]` holds no `*`.
pub open spec fn star_split_from(s: Seq<char>, start: int, i: int) -> Seq<Seq<char>>
    decreases s.len() - i,
{
    if i < 0 || i >= s.len() {
        seq![s.subrange(start, s.len() as int)]
    } else if s[i] == '*' {
        seq![s.subrange(start, i)] + star_split_from(s, i + 1, i + 1)
    } else {
        star_split_from(s, start, i + 1)
    }
}

/// `str::split('*')`.
pub open spec fn star_split(s: Seq<char>) -> Seq<Seq<char>> {
    star_split_from(s, 0, 0)
}

/// `s` holds `qs[0]`, then `qs[1]`, ... in this order, each after the end of the
/// one before, and ends with the last piece.
pub open spec fn star_match(s: Seq<char>, qs: Seq<Seq<char>>) -> bool
    decreases qs.len(),
{
    if qs.len() == 0 {
        true
    } else if qs.len() == 1 {
        ends_with(s, qs[0])
    } else {
        exists|i: int|
            #[trigger] occurs_at(s, qs[0], i) && star_match(s.skip(i + qs[0].len()), qs.skip(1))
    }
}

/// A name matches the pieces of a split pattern: it starts with the first
/// piece and the rest matches the others with a `*` before each.
pub open spec fn parts_match(name: Seq<char>, ps: Seq<Seq<char>>) -> bool {
    if ps.len() == 0 {
        true
    } else if ps.len() == 1 {
        starts_with(name, ps[0])
    } else {
        starts_with(name, ps[0]) && star_match(name.skip(ps[0].len() as int), ps.skip(1))
    }
}

/// `name` matches `pattern`.
pub open spec fn glob_matches(name: Seq<char>, pattern: Seq<char>) -> bool {
    if !pattern.contains('*') {
        name == pattern
    } else {
        parts_match(name, star_split(pattern))
    }
}

/// What is left of `s` after taking each of `qs` at its leftmost occurrence
/// in turn (`None` when one of them does not occur).
pub open spec fn greedy_rest(s: Seq<char>, qs: Seq<Seq<char>>) -> Option<Seq<char>>
    decreases qs.len(),
{
    if qs.len() == 0 {
        Some(s)
    } else {
        match find(s, qs[0]) {
            None => None,
            Some(i) => greedy_rest(s.skip(i + qs[0].len()), qs.skip(1)),
        }
    }
}

/// The middle pieces of a split pattern (all but the first and the last).
pub open spec fn middle_pieces(ps: Seq<Seq<char>>) -> Seq<Seq<char>> {
    if ps.len() > 2 {
        ps.subrange(1, ps.len() - 1)
    } else {
        seq![]
    }
}

// ---------------------------------------------------------------------------
// Lemmas
// ---------------------------------------------------------------------------

proof fn lemma_star_split_len(s: Seq<char>, start: int, i: int)
    requires
        0 <= start <= i <= s.len(),
    ensures
        star_split_from(s, start, i).len() >= 1,
        (exists|j: int| i <= j < s.len() && s[j] == '*') ==> star_split_from(s, start, i).len()
            >= 2,
    decreases s.len() - i,
{
    if i < s.len() {
        if s[i] == '*' {
            lemma_star_split_len(s, i + 1, i + 1);
        } else {
            lemma_star_split_len(s, start, i + 1);
            if exists|j: int| i <= j < s.len() && s[j] == '*' {
                let j = choose|j: int| i <= j < s.len() && s[j] == '*';
                assert(i + 1 <= j);
            }
        }
    }
}

/// Text put in front does not undo a match.
proof fn lemma_star_match_extend(u: Seq<char>, t: Seq<char>, qs: Seq<Seq<char>>)
    requires
        star_match(t, qs),
    ensures
        star_match(u + t, qs),
    decreases qs.len(),
{
    if qs.len() == 1 {
        let q = qs[0];
        assert((u + t).subrange((u + t).len() - q.len(), (u + t).len() as int) =~= t.subrange(
            t.len() - q.len(),
            t.len() as int,
        ));
    } else if qs.len() >= 2 {
        let q = qs[0];
        let i = choose|i: int|
            #[trigger] occurs_at(t, q, i) && star_match(t.skip(i + q.len()), qs.skip(1));
        let j = i + u.len();
        assert((u + t).subrange(j, j + q.len()) =~= t.subrange(i, i + q.len()));
        assert((u + t).skip(j + q.len()) =~= t.skip(i + q.len()));
        assert(occurs_at(u + t, q, j));
    }
}

/// Taking each middle piece at its leftmost occurrence decides a match
/// exactly: the leftmost-first scan finds a match whenever there is one.
pub proof fn lemma_greedy_is_exact(s: Seq<char>, qs: Seq<Seq<char>>)
    requires
        qs.len() >= 1,
    ensures
        star_match(s, qs) == match greedy_rest(s, qs.drop_last()) {
            Some(t) => ends_with(t, qs.last()),
            None => false,
        },
    decreases qs.len(),
{
    if qs.len() == 1 {
        assert(qs.drop_last().len() == 0);
    } else {
        let q = qs[0];
        let mid = qs.drop_last();
        assert(mid[0] == q);
        assert(mid.skip(1) =~= qs.skip(1).drop_last());
        assert(qs.skip(1).last() == qs.last());
        lemma_find_from(s, q, 0);
        match find(s, q) {
            None => {
                if star_match(s, qs) {
                    let i = choose|i: int|
                        #[trigger] occurs_at(s, q, i) && star_match(s.skip(i + q.len()), qs.skip(1));
                    assert(!occurs_at(s, q, i));
                }
            },
            Some(i0) => {
                lemma_greedy_is_exact(s.skip(i0 + q.len()), qs.skip(1));
                if star_match(s, qs) {
                    let i = choose|i: int|
                        #[trigger] occurs_at(s, q, i) && star_match(s.skip(i + q.len()), qs.skip(1));
                    assert(i0 <= i);
                    let u = s.subrange(i0 + q.len(), i + q.len());
                    lemma_star_match_extend(u, s.skip(i + q.len()), qs.skip(1));
                    assert(u + s.skip(i + q.len()) =~= s.skip(i0 + q.len()));
                }
                if star_match(s.skip(i0 + q.len()), qs.skip(1)) {
                    assert(occurs_at(s, q, i0));
                }
            },
        }
    }
}

// ---------------------------------------------------------------------------
// Executable functions
// ---------------------------------------------------------------------------

/// Whether `c` occurs in `v`.
pub fn contains_char(v: &[char], c: char) -> (b: bool)
    ensures
        b == v@.contains(c),
{
    let mut i: usize = 0;
    while i < v.len()
        invariant
            i <= v@.len(),
            forall|j: int| 0 <= j < i ==> v@[j] != c,
        decreases v@.len() - i,
    {
        if v[i] == c {
            assert(v@[i as int] == c);
            return true;
        }
        i += 1;
    }
    false
}

/// The pieces of `v` between `*`s (`str::split('*')`).
pub fn split_star(v: &[char]) -> (r: Vec<Vec<char>>)
    ensures
        vviews(r@) == star_split(v@),
{
    let ghost s = v@;
    let mut r: Vec<Vec<char>> = Vec::new();
    let mut start: usize = 0;
    let mut i: usize = 0;
    while i < v.len()
        invariant
            s == v@,
            start <= i <= v@.len(),
            star_split(s) == vviews(r@) + star_split_from(s, start as int, i as int),
        decreases v@.len() - i,
    {
        if v[i] == '*' {
            let mut piece: Vec<char> = Vec::new();
            append_span(&mut piece, v, start, i);
            let ghost old_r = r@;
            r.push(piece);
            assert(vviews(r@) == vviews(old_r).push(s.subrange(start as int, i as int)));
            assert(star_split_from(s, start as int, i as int) == seq![
                s.subrange(start as int, i as int),
            ] + star_split_from(s, i + 1, i + 1));
            assert(vviews(old_r) + star_split_from(s, start as int, i as int) == vviews(r@)
                + star_split_from(s, i + 1, i + 1));
            start = i + 1;
        }
        i += 1;
    }
    let mut last: Vec<char> = Vec::new();
    append_span(&mut last, v, start, v.len());
    let ghost old_r = r@;
    r.push(last);
    assert(vviews(r@) == vviews(old_r).push(s.subrange(start as int, s.len() as int)));
    assert(vviews(r@) == vviews(old_r) + seq![s.subrange(start as int, s.len() as int)]);
    r
}

/// The rest of `name` after `prefix`, if `name` starts with it.
pub fn consume_prefix(name: &[char], prefix: &[char]) -> (r: Option<Vec<char>>)
    ensures
        r matches Some(t) ==> starts_with(name@, prefix@) && t@ == name@.skip(
            prefix@.len() as int,
        ),
        r is None ==> !starts_with(name@, prefix@),
{
    assert(name@.subrange(0, name@.len() as int) == name@);
    if prefix.len() == 0 {
        assert(name@.subrange(0, 0) == prefix@);
        let mut t: Vec<char> = Vec::new();
        append_all(&mut t, name);
        assert(name@.skip(0) == name@);
        return Some(t);
    }
    if span_starts_with(name, 0, name.len(), prefix) {
        let mut t: Vec<char> = Vec::new();
        append_span(&mut t, name, prefix.len(), name.len());
        Some(t)
    } else {
        None
    }
}

/// The middle pieces of a split pattern (all but the first and the last).
pub fn pattern_middle_slice(parts: &Vec<Vec<char>>) -> (r: Vec<Vec<char>>)
    ensures
        vviews(r@) == middle_pieces(vviews(parts@)),
{
    let mut r: Vec<Vec<char>> = Vec::new();
    if parts.len() <= 2 {
        return r;
    }
    let ghost ps = vviews(parts@);
    let mut k: usize = 1;
    while k < parts.len() - 1
        invariant
            2 < parts@.len(),
            1 <= k <= parts@.len() - 1,
            ps == vviews(parts@),
            vviews(r@) == ps.subrange(1, k as int),
        decreases parts@.len() - k,
    {
        let mut piece: Vec<char> = Vec::new();
        append_all(&mut piece, parts[k].as_slice());
        let ghost old_r = r@;
        r.push(piece);
        assert(vviews(r@) == vviews(old_r).push(ps[k as int]));
        assert(ps.subrange(1, k + 1) == ps.subrange(1, k as int).push(ps[k as int]));
        k += 1;
    }
    r
}

/// What is left of `name` after taking each middle piece at its leftmost
/// occurrence, or `None` when one does not occur.
pub fn consume_middle(name: &[char], middle_parts: &Vec<Vec<char>>) -> (r: Option<Vec<char>>)
    ensures
        r matches Some(t) ==> greedy_rest(name@, vviews(middle_parts@)) == Some(t@),
        r is None ==> greedy_rest(name@, vviews(middle_parts@)) is None,
{
    let ghost qs = vviews(middle_parts@);
    let mut remaining: Vec<char> = Vec::new();
    append_all(&mut remaining, name);
    assert(qs.skip(0) == qs);
    let mut k: usize = 0;
    while k < middle_parts.len()
        invariant
            k <= middle_parts@.len(),
            qs == vviews(middle_parts@),
            greedy_rest(name@, qs) == greedy_rest(remaining@, qs.skip(k as int)),
        decreases middle_parts@.len() - k,
    {
        let part = &middle_parts[k];
        let ghost rest = qs.skip(k as int);
        assert(rest[0] == part@);
        assert(rest.skip(1) == qs.skip(k + 1));
        assert(remaining@.subrange(0, remaining@.len() as int) == remaining@);
        if part.len() == 0 {
            assert(remaining@.subrange(0, 0) == part@);
            assert(occurs_at(remaining@, part@, 0));
            assert(find(remaining@, part@) == Some(0int));
            assert(remaining@.skip(0) == remaining@);
        } else {
            match find_from_exec(remaining.as_slice(), remaining.len(), part.as_slice(), 0) {
                None => {
                    return None;
                },
                Some(idx) => {
                    proof {
                        lemma_find_from(remaining@, part@, 0);
                    }
                    let mut next: Vec<char> = Vec::new();
                    append_span(&mut next, remaining.as_slice(), idx + part.len(), remaining.len());
                    assert(next@ == remaining@.skip(idx + part@.len()));
                    remaining = next;
                },
            }
        }
        k += 1;
    }
    assert(qs.skip(middle_parts@.len() as int).len() == 0);
    Some(remaining)
}

/// Whether `name` ends with `suffix` (an empty suffix always does).
pub fn check_suffix(name: &[char], suffix: &[char]) -> (b: bool)
    ensures
        b == ends_with(name@, suffix@),
{
    assert(name@.subrange(0, name@.len() as int) == name@);
    if suffix.len() == 0 {
        assert(name@.subrange(name@.len() as int, name@.len() as int) == suffix@);
        return true;
    }
    span_ends_with(name, 0, name.len(), suffix)
}

/// Whether `name` matches the pieces of a pattern split at its `*`s.
pub fn match_pattern_parts(name: &[char], parts: &Vec<Vec<char>>) -> (b: bool)
    ensures
        b == parts_match(name@, vviews(parts@)),
{
    let ghost ps = vviews(parts@);
    let empty: Vec<char> = Vec::new();
    let prefix: &[char] = if parts.len() > 0 {
        parts[0].as_slice()
    } else {
        empty.as_slice()
    };
    let after_prefix = match consume_prefix(name, prefix) {
        Some(t) => t,
        None => {
            proof {
                if parts@.len() == 0 {
                    assert(name@.subrange(0, 0) == prefix@);
                }
            }
            return false;
        },
    };
    if parts.len() == 0 {
        return true;
    }
    assert(prefix@ == ps[0]);
    let middle = pattern_middle_slice(parts);
    let after_middle = match consume_middle(after_prefix.as_slice(), &middle) {
        Some(t) => t,
        None => {
            proof {
                if ps.len() > 1 {
                    assert(middle_pieces(ps) =~= ps.skip(1).drop_last());
                    lemma_greedy_is_exact(after_prefix@, ps.skip(1));
                }
            }
            return false;
        },
    };
    if parts.len() > 1 {
        let suffix = parts[parts.len() - 1].as_slice();
        let b = check_suffix(after_middle.as_slice(), suffix);
        proof {
            assert(middle_pieces(ps) =~= ps.skip(1).drop_last());
            assert(ps.skip(1).last() == suffix@);
            lemma_greedy_is_exact(after_prefix@, ps.skip(1));
        }
        b
    } else {
        true
    }
}

/// Whether `name` matches `pattern`, where `*` stands for any run of
/// characters and every other character for itself.
pub fn matches_glob(name: &str, pattern: &str) -> (b: bool)
    ensures
        b == glob_matches(name@, pattern@),
{
    let n = chars_of(name);
    let p = chars_of(pattern);
    if !contains_char(&p, '*') {
        return chars_eq(&n, &p);
    }
    let parts = split_star(&p);
    proof {
        let j = choose|j: int| 0 <= j < p@.len() && p@[j] == '*';
        lemma_star_split_len(p@, 0, 0);
    }
    match_pattern_parts(&n, &parts)
}

} // verus!
