//! Bookmark bookkeeping around the push: reading the bookmark names that jj
//! prints, keeping each once, and deciding whether a lagging bookmark may
//! be moved forward (only when exactly one candidate exists).
use vstd::prelude::*;

use crate::stages::bookmark_check::{
    bookmark_candidates, judged_non_trunk, parse_non_trunk_bookmarks, select,
};
use crate::text::{
    append_new, chars_of, owned, lemma_append_new_contains, lemma_append_new_no_dups, lines,
    split_char, split_lines, split_on_char, string_of_span, trim, trim_span, trimmed_nonempty,
    views, vviews,
};

verus! {

// ---------------------------------------------------------------------------
// Specifications
// ---------------------------------------------------------------------------

/// The comma-separated pieces of each line, in order.
pub open spec fn comma_pieces(ls: Seq<Seq<char>>) -> Seq<Seq<char>>
    decreases ls.len(),
{
    if ls.len() == 0 {
        seq![]
    } else {
        comma_pieces(ls.drop_last()) + split_char(ls.last(), ',')
    }
}

/// The bookmark names of a `local_bookmarks.map(|b| b.name()).join(",")`
/// template output: every comma-separated piece of every line, trimmed,
/// without blanks (repeats kept).
pub open spec fn template_names(raw: Seq<char>) -> Seq<Seq<char>> {
    trimmed_nonempty(comma_pieces(lines(raw)))
}

/// What `dispatch_bookmark_advance` decided.
pub enum AdvanceDispatch {
    /// No bookmark: nothing to move.
    NoBookmarks,
    /// Exactly one bookmark: it was handed to `apply`.
    Single,
    /// Several bookmarks: moving one could move an unrelated one, so none moves.
    Several,
}

/// The outcome of a query, by view.
pub open spec fn result_view(r: Result<String, String>) -> Result<Seq<char>, Seq<char>> {
    match r {
        Ok(s) => Ok(s@),
        Err(e) => Err(e@),
    }
}

// ---------------------------------------------------------------------------
// Laws
// ---------------------------------------------------------------------------

/// `dedup` keeps exactly the items of its input, each once.
pub proof fn lemma_dedup_members_once(xs: Seq<Seq<char>>, x: Seq<char>)
    ensures
        append_new(seq![], xs).no_duplicates(),
        append_new(seq![], xs).contains(x) <==> xs.contains(x),
{
    lemma_append_new_no_dups(seq![], xs);
    lemma_append_new_contains(seq![], xs, x);
}

// ---------------------------------------------------------------------------
// Executable functions
// ---------------------------------------------------------------------------

/// The items in order of first occurrence, each once.
pub fn dedup(items: Vec<String>) -> (r: Vec<String>)
    ensures
        views(r@) == append_new(seq![], views(items@)),
{
    let ghost xs = views(items@);
    let mut r: Vec<String> = Vec::new();
    let mut k: usize = 0;
    while k < items.len()
        invariant
            k <= items@.len(),
            xs == views(items@),
            views(r@) == append_new(seq![], xs.take(k as int)),
        decreases items@.len() - k,
    {
        let item = &items[k];
        proof {
            assert(xs.take(k + 1).drop_last() == xs.take(k as int));
            assert(xs.take(k + 1).last() == item@);
        }
        let mut seen = false;
        let mut j: usize = 0;
        while j < r.len()
            invariant
                j <= r@.len(),
                seen == (exists|i: int| 0 <= i < j && r@[i]@ == item@),
            decreases r@.len() - j,
        {
            if r[j] == *item {
                seen = true;
            }
            j += 1;
        }
        proof {
            if seen {
                let i = choose|i: int| 0 <= i < r@.len() && r@[i]@ == item@;
                assert(views(r@)[i] == item@);
            }
            if views(r@).contains(item@) {
                let i = choose|i: int| 0 <= i < views(r@).len() && views(r@)[i] == item@;
                assert(r@[i]@ == item@);
            }
        }
        if !seen {
            let ghost before = r@;
            r.push(item.clone());
            assert(views(r@) == views(before).push(item@));
        }
        k += 1;
    }
    assert(xs.take(items@.len() as int) == xs);
    r
}

/// The bookmark names of a bookmark-name template output (see
/// `template_names`).
pub fn parse_bookmarks_from_template(raw: &str) -> (r: Vec<String>)
    ensures
        views(r@) == template_names(raw@),
{
    let ls = split_lines(raw);
    let ghost ln = lines(raw@);
    let mut r: Vec<String> = Vec::new();
    let mut i: usize = 0;
    while i < ls.len()
        invariant
            i <= ls@.len(),
            ln == vviews(ls@),
            views(r@) == trimmed_nonempty(comma_pieces(ln.take(i as int))),
        decreases ls@.len() - i,
    {
        let pieces = split_on_char(ls[i].as_slice(), ',');
        let ghost base = comma_pieces(ln.take(i as int));
        let ghost ps = vviews(pieces@);
        proof {
            assert(ln.take(i + 1).drop_last() == ln.take(i as int));
            assert(ln.take(i + 1).last() == ls@[i as int]@);
            assert(comma_pieces(ln.take(i + 1)) == base + ps);
        }
        let mut k: usize = 0;
        while k < pieces.len()
            invariant
                k <= pieces@.len(),
                ps == vviews(pieces@),
                views(r@) == trimmed_nonempty(base + ps.take(k as int)),
            decreases pieces@.len() - k,
        {
            let p = &pieces[k];
            let (a, b) = trim_span(p.as_slice(), 0, p.len());
            proof {
                assert(p@.subrange(0, p@.len() as int) == p@);
                assert((base + ps.take(k + 1)).drop_last() == base + ps.take(k as int));
                assert((base + ps.take(k + 1)).last() == p@);
            }
            if a < b {
                let t = string_of_span(p.as_slice(), a, b);
                let ghost before = r@;
                r.push(t);
                assert(views(r@) == views(before).push(t@));
            }
            k += 1;
        }
        assert(ps.take(pieces@.len() as int) == ps);
        i += 1;
    }
    assert(ln.take(ls@.len() as int) == ln);
    r
}

/// The non-trunk bookmark names of `jj bookmark list` output (see
/// `parse_non_trunk_bookmarks`).
pub fn parse_bookmark_list_output<F: Fn(&str) -> bool>(output: &str, is_trunk: &F) -> (r: Vec<
    String,
>)
    requires
        forall|s: &str| call_requires(*is_trunk, (s,)),
    ensures
        exists|args: Seq<&str>, trunk_flags: Seq<bool>|
            judged_non_trunk(*is_trunk, bookmark_candidates(lines(output@)), args, trunk_flags)
                && views(r@) == select(bookmark_candidates(lines(output@)), trunk_flags),
{
    parse_non_trunk_bookmarks(output, is_trunk)
}

/// The local non-trunk bookmarks from a `jj bookmark list` result, each once.
pub fn get_local_bookmarks_from_list<F: Fn(&str) -> bool>(
    output: Result<String, String>,
    is_trunk: &F,
) -> (r: Result<Vec<String>, String>)
    requires
        forall|s: &str| call_requires(*is_trunk, (s,)),
    ensures
        output matches Err(e) ==> r == Err::<Vec<String>, String>(e),
        output matches Ok(text) ==> r matches Ok(v) && exists|args: Seq<&str>, trunk_flags: Seq<bool>|
            judged_non_trunk(*is_trunk, bookmark_candidates(lines(text@)), args, trunk_flags)
                && views(v@) == append_new(
                seq![],
                select(bookmark_candidates(lines(text@)), trunk_flags),
            ),
{
    match output {
        Ok(text) => Ok(dedup(parse_bookmark_list_output(text.as_str(), is_trunk))),
        Err(e) => Err(e),
    }
}

/// Moves the bookmark forward only when exactly one candidate exists:
/// `apply` gets the bookmarks and the target in that case.
pub fn dispatch_bookmark_advance<A: FnOnce(&[String], &str)>(
    bookmarks: &[String],
    target: &str,
    apply: A,
) -> (d: AdvanceDispatch)
    requires
        bookmarks@.len() == 1 ==> call_requires(apply, (bookmarks, target)),
    ensures
        d is NoBookmarks <==> bookmarks@.len() == 0,
        d is Single <==> bookmarks@.len() == 1,
        d is Several <==> bookmarks@.len() > 1,
        bookmarks@.len() == 1 ==> call_ensures(apply, (bookmarks, target), ()),
{
    if bookmarks.len() == 0 {
        AdvanceDispatch::NoBookmarks
    } else if bookmarks.len() == 1 {
        apply(bookmarks, target);
        AdvanceDispatch::Single
    } else {
        AdvanceDispatch::Several
    }
}

/// Whether `@` is empty, from the output of
/// `jj log -r @ -T 'if(empty, "empty", "content")'`.
pub fn working_copy_is_empty(output: Result<String, String>) -> (r: Result<bool, String>)
    ensures
        output matches Err(e) ==> r == Err::<bool, String>(e),
        output matches Ok(o) ==> r == Ok::<bool, String>(trim(o@) == "empty"@),
{
    match output {
        Ok(o) => {
            let t = crate::text::trim_string(o.as_str());
            let e = chars_of("empty");
            let tv = chars_of(t.as_str());
            Ok(crate::text::chars_eq(&tv, &e))
        },
        Err(e) => Err(e),
    }
}

/// Whether `@` has a description, from the output of
/// `jj log -r @ -T 'if(description, "described", "descless")'`.
pub fn head_has_description(output: Result<String, String>) -> (r: Result<bool, String>)
    ensures
        output matches Err(e) ==> r == Err::<bool, String>(e),
        output matches Ok(o) ==> r == Ok::<bool, String>(trim(o@) == "described"@),
{
    match output {
        Ok(o) => {
            let t = crate::text::trim_string(o.as_str());
            let d = chars_of("described");
            let tv = chars_of(t.as_str());
            Ok(crate::text::chars_eq(&tv, &d))
        },
        Err(e) => Err(e),
    }
}

/// The names that `is_trunk` does not hold to be trunk, in order.
pub fn filter_non_trunk<F: Fn(&str) -> bool>(names: Vec<String>, is_trunk: &F) -> (r: Vec<String>)
    requires
        forall|s: &str| call_requires(*is_trunk, (s,)),
    ensures
        exists|args: Seq<&str>, trunk_flags: Seq<bool>|
            judged_non_trunk(*is_trunk, views(names@), args, trunk_flags) && views(r@) == select(
                views(names@),
                trunk_flags,
            ),
{
    let ghost ns = views(names@);
    let ghost mut trunk_flags: Seq<bool> = seq![];
    let ghost mut args: Seq<&str> = seq![];
    let mut r: Vec<String> = Vec::new();
    let mut i: usize = 0;
    while i < names.len()
        invariant
            i <= names@.len(),
            ns == views(names@),
            forall|s: &str| call_requires(*is_trunk, (s,)),
            judged_non_trunk(*is_trunk, ns.take(i as int), args, trunk_flags),
            views(r@) == select(ns.take(i as int), trunk_flags),
        decreases names@.len() - i,
    {
        let n: &str = names[i].as_str();
        let trunk = is_trunk(n);
        let ghost prev = ns.take(i as int);
        proof {
            let ghost old_trunk = trunk_flags;
            let ghost old_args = args;
            trunk_flags = trunk_flags.push(trunk);
            args = args.push(n);
            let nc = ns.take(i + 1);
            assert(nc == prev.push(n@));
            assert(nc.drop_last() == prev);
            assert(trunk_flags.drop_last() == old_trunk);
            assert forall|j: int| 0 <= j < nc.len() implies (#[trigger] args[j])@ == nc[j]
                && call_ensures(*is_trunk, (args[j],), trunk_flags[j]) by {
                if j < prev.len() {
                    assert(old_args[j] == args[j]);
                    assert(nc[j] == prev[j]);
                    assert(trunk_flags[j] == old_trunk[j]);
                }
            }
        }
        if !trunk {
            let ghost before = r@;
            r.push(owned(n));
            assert(views(r@) == views(before).push(n@));
        }
        i += 1;
    }
    assert(ns.take(names@.len() as int) == ns);
    r
}

/// The non-trunk bookmarks on the advance target, from the output of the
/// template query (`jj log -T` of the local bookmark names), without
/// repeats; none when the query failed.
pub fn get_bookmarks_in_range<F: Fn(&str) -> bool>(output: Result<String, String>, is_trunk: &F) -> (r:
    Vec<String>)
    requires
        forall|s: &str| call_requires(*is_trunk, (s,)),
    ensures
        output is Err ==> r@.len() == 0,
        output matches Ok(text) ==> exists|args: Seq<&str>, trunk_flags: Seq<bool>|
            judged_non_trunk(*is_trunk, template_names(text@), args, trunk_flags) && views(r@)
                == append_new(seq![], select(template_names(text@), trunk_flags)),
{
    match output {
        Err(_) => Vec::new(),
        Ok(text) => {
            let names = parse_bookmarks_from_template(text.as_str());
            let kept = filter_non_trunk(names, is_trunk);
            dedup(kept)
        },
    }
}

} // verus!
