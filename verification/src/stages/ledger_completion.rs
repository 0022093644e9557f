//! Ledger completion: a push whose commit descriptions declare
//! `Ledger-Rank: N` trailers has the ledger checker confirm that the
//! declared entries' deliverables were changed. A trailer that cannot be
//! read, a changed-file list that cannot be written, or a checker that
//! cannot be run all stop the push.
use vstd::prelude::*;

use crate::config::ledger_completion::LedgerCompletionConfig;
use crate::text::{
    append_all, decimal, decimal_of, append_span, append_str, chars_of, digits_value, is_digit, join, lines, owned,
    parse_digits, split_lines, starts_with, span_starts_with, string_of, trim, trim_span, vviews,
};

verus! {

// ---------------------------------------------------------------------------
// Specifications
// ---------------------------------------------------------------------------

/// The value of a `Ledger-Rank:` trailer line (the whole line trimmed must
/// start with it), trimmed.
pub open spec fn trailer_value(l: Seq<char>) -> Option<Seq<char>> {
    let t = trim(l);
    if starts_with(t, "Ledger-Rank:"@) {
        Some(trim(t.skip("Ledger-Rank:"@.len() as int)))
    } else {
        None
    }
}

/// A non-empty run of decimal digits whose value fits in `u32`: that value.
pub open spec fn digits_u32(d: Seq<char>) -> Option<nat> {
    if d.len() > 0 && (forall|k: int| 0 <= k < d.len() ==> is_digit(#[trigger] d[k]))
        && digits_value(d) <= u32::MAX {
        Some(digits_value(d))
    } else {
        None
    }
}

/// `str::parse::<u32>`: an optional `+`, then decimal digits, within `u32`.
pub open spec fn parse_u32(v: Seq<char>) -> Option<nat> {
    if v.len() > 0 && v[0] == '+' {
        digits_u32(v.skip(1))
    } else {
        digits_u32(v)
    }
}

/// The message for a trailer whose value is not a rank.
pub open spec fn rank_error(value: Seq<char>) -> Seq<char> {
    "`Ledger-Rank: "@ + value + "` の値を順位 (整数) として読めません"@
}

/// The declared ranks of the lines, in order of first declaration, or the
/// error of the first trailer that is not a rank.
pub open spec fn rank_scan(ls: Seq<Seq<char>>) -> Result<Seq<u32>, Seq<char>>
    decreases ls.len(),
{
    if ls.len() == 0 {
        Ok(seq![])
    } else {
        match rank_scan(ls.drop_last()) {
            Err(e) => Err(e),
            Ok(rs) => match trailer_value(ls.last()) {
                None => Ok(rs),
                Some(v) => match parse_u32(v) {
                    None => Err(rank_error(v)),
                    Some(n) => if rs.contains(n as u32) {
                        Ok(rs)
                    } else {
                        Ok(rs.push(n as u32))
                    },
                },
            },
        }
    }
}

/// The decimal numerals of the ranks.
pub open spec fn numerals(rs: Seq<u32>) -> Seq<Seq<char>> {
    rs.map_values(|r: u32| decimal(r as nat))
}

/// The checker in force: the configured one. Without one the checker
/// cannot be run, and the push stops as when it cannot be launched.
pub open spec fn exe_in_force(config: Option<LedgerCompletionConfig>) -> Option<Seq<char>> {
    match config {
        Some(c) => match c.exe {
            Some(e) => Some(e@),
            None => None,
        },
        None => None,
    }
}

/// The ledger in force: the configured one (required, as the checker is).
pub open spec fn ledger_in_force(config: Option<LedgerCompletionConfig>) -> Option<Seq<char>> {
    match config {
        Some(c) => match c.ledger {
            Some(l) => Some(l@),
            None => None,
        },
        None => None,
    }
}

/// The stage is on.
pub open spec fn stage_enabled(config: Option<LedgerCompletionConfig>) -> bool {
    match config {
        Some(c) => c.enabled == Some(true),
        None => false,
    }
}

/// The view of an optional config reference.
pub open spec fn opt_config(config: Option<&LedgerCompletionConfig>) -> Option<
    LedgerCompletionConfig,
> {
    match config {
        Some(c) => Some(*c),
        None => None,
    }
}

/// With a checker and a ledger configured, `run_exe` ran the checker on
/// the ledger, the ranks (comma-separated) and the changed-file list at
/// `path`, and `b` says whether it exited 0; without them `b` is false.
pub open spec fn ran_checker<X: FnOnce(&str, &str, &str, &str) -> Result<i32, String>>(
    run_exe: X,
    config: Option<LedgerCompletionConfig>,
    ranks: Seq<u32>,
    path: Seq<char>,
    b: bool,
) -> bool {
    if exe_in_force(config) is None || ledger_in_force(config) is None {
        !b
    } else {
        exists|e: &str, l: &str, rl: &str, p: &str, out: Result<i32, String>|
            Some(e@) == exe_in_force(config) && Some(l@) == ledger_in_force(config) && rl@ == join(
                numerals(ranks),
                ","@,
            ) && p@ == path && call_ensures(run_exe, (e, l, rl, p), out) && b == (out == Ok::<
                i32,
                String,
            >(0))
    }
}

// ---------------------------------------------------------------------------
// Lemmas
// ---------------------------------------------------------------------------

/// An unreadable trailer decides the whole description: later lines do not
/// change the error.
proof fn lemma_rank_error_sticks(ls: Seq<Seq<char>>, j: int)
    requires
        0 <= j <= ls.len(),
        rank_scan(ls.take(j)) is Err,
    ensures
        rank_scan(ls) == rank_scan(ls.take(j)),
    decreases ls.len() - j,
{
    if j < ls.len() {
        assert(ls.take(j + 1).drop_last() == ls.take(j));
        lemma_rank_error_sticks(ls, j + 1);
    } else {
        assert(ls.take(j) == ls);
    }
}

// ---------------------------------------------------------------------------
// Executable functions
// ---------------------------------------------------------------------------

/// Reads `v[lo..hi]` as `str::parse::<u32>` would.
fn parse_u32_span(v: &[char], lo: usize, hi: usize) -> (r: Option<u32>)
    requires
        lo <= hi <= v@.len(),
    ensures
        match r {
            Some(n) => parse_u32(v@.subrange(lo as int, hi as int)) == Some(n as nat),
            None => parse_u32(v@.subrange(lo as int, hi as int)) is None,
        },
{
    let ghost s = v@.subrange(lo as int, hi as int);
    let start = if lo < hi && v[lo] == '+' {
        lo + 1
    } else {
        lo
    };
    assert(v@.subrange(start as int, hi as int) == if s.len() > 0 && s[0] == '+' {
        s.skip(1)
    } else {
        s
    });
    let ghost d = v@.subrange(start as int, hi as int);
    match parse_digits(v, start, hi, u32::MAX as u64) {
        Some(n) => {
            assert forall|k: int| 0 <= k < d.len() implies is_digit(#[trigger] d[k]) by {
                assert(d[k] == v@[start + k]);
            }
            Some(n as u32)
        },
        None => {
            proof {
                if hi > start && exists|j: int| start <= j < hi && !is_digit(#[trigger] v@[j]) {
                    let j = choose|j: int| start <= j < hi && !is_digit(#[trigger] v@[j]);
                    assert(d[j - start] == v@[j]);
                }
            }
            None
        },
    }
}

/// The ranks declared by `Ledger-Rank: N` trailer lines of a description,
/// each once, in order of first declaration. A trailer whose value is not
/// a `u32` is an error, not skipped.
pub fn parse_rank_trailers(description: &str) -> (r: Result<Vec<u32>, String>)
    ensures
        match r {
            Ok(v) => rank_scan(lines(description@)) == Ok::<Seq<u32>, Seq<char>>(v@),
            Err(e) => rank_scan(lines(description@)) == Err::<Seq<u32>, Seq<char>>(e@),
        },
{
    let ls = split_lines(description);
    let ghost ln = lines(description@);
    let prefix = chars_of("Ledger-Rank:");
    let mut ranks: Vec<u32> = Vec::new();
    let mut i: usize = 0;
    while i < ls.len()
        invariant
            i <= ls@.len(),
            ln == vviews(ls@),
            ln == lines(description@),
            prefix@ == "Ledger-Rank:"@,
            rank_scan(ln.take(i as int)) == Ok::<Seq<u32>, Seq<char>>(ranks@),
        decreases ls@.len() - i,
    {
        let l = &ls[i];
        proof {
            assert(ln.take(i + 1).drop_last() == ln.take(i as int));
            assert(ln.take(i + 1).last() == l@);
        }
        let (a, b) = trim_span(l.as_slice(), 0, l.len());
        assert(l@.subrange(0, l@.len() as int) == l@);
        if span_starts_with(l.as_slice(), a, b, &prefix) {
            let (va, vb) = trim_span(l.as_slice(), a + prefix.len(), b);
            assert(l@.subrange(a + prefix@.len(), b as int) == l@.subrange(a as int, b as int).skip(
                prefix@.len() as int,
            ));
            match parse_u32_span(l.as_slice(), va, vb) {
                None => {
                    let mut msg: Vec<char> = chars_of("`Ledger-Rank: ");
                    append_span(&mut msg, l.as_slice(), va, vb);
                    append_str(&mut msg, "` の値を順位 (整数) として読めません");
                    proof {
                        assert(trailer_value(l@) == Some(l@.subrange(va as int, vb as int)));
                        assert(rank_scan(ln.take(i + 1)) == Err::<Seq<u32>, Seq<char>>(msg@));
                        lemma_rank_error_sticks(ln, i + 1);
                    }
                    return Err(string_of(&msg));
                },
                Some(n) => {
                    let mut seen = false;
                    let mut k: usize = 0;
                    while k < ranks.len()
                        invariant
                            k <= ranks@.len(),
                            seen == (exists|j: int| 0 <= j < k && ranks@[j] == n),
                        decreases ranks@.len() - k,
                    {
                        if ranks[k] == n {
                            seen = true;
                        }
                        k += 1;
                    }
                    if !seen {
                        ranks.push(n);
                    }
                },
            }
        }
        i += 1;
    }
    assert(ln.take(ls@.len() as int) == ln);
    Ok(ranks)
}

/// Runs the ledger checker on the declared ranks and the changed-file
/// list; whether it passed (exit 0). A failure to run it stops the push.
pub fn verify_declared_ranks<X: FnOnce(&str, &str, &str, &str) -> Result<i32, String>>(
    config: Option<&LedgerCompletionConfig>,
    ranks: &[u32],
    changed_files_path: &str,
    run_exe: X,
) -> (b: bool)
    requires
        forall|e: &str, l: &str, rl: &str, p: &str| call_requires(run_exe, (e, l, rl, p)),
    ensures
        ran_checker(run_exe, opt_config(config), ranks@, changed_files_path@, b),
{
    let (exe, ledger) = match config {
        Some(c) => match (&c.exe, &c.ledger) {
            (Some(e), Some(l)) => (owned(e.as_str()), owned(l.as_str())),
            _ => {
                return false;
            },
        },
        None => {
            return false;
        },
    };
    let ghost ns = numerals(ranks@);
    let mut list: Vec<char> = Vec::new();
    let mut i: usize = 0;
    while i < ranks.len()
        invariant
            i <= ranks@.len(),
            ns == numerals(ranks@),
            list@ == join(ns.take(i as int), ","@),
        decreases ranks@.len() - i,
    {
        proof {
            crate::text::lemma_join_push(ns.take(i as int), ns[i as int], ","@);
            assert(ns.take(i + 1) == ns.take(i as int).push(ns[i as int]));
        }
        if i > 0 {
            append_str(&mut list, ",");
        }
        let d = decimal_of(ranks[i] as u64);
        append_all(&mut list, &d);
        i += 1;
    }
    assert(ns.take(ranks@.len() as int) == ns);
    let rank_list = string_of(&list);
    let e: &str = exe.as_str();
    let l: &str = ledger.as_str();
    let rl: &str = rank_list.as_str();
    let out = run_exe(e, l, rl, changed_files_path);
    let ghost go = out;
    let b = match out {
        Ok(code) => code == 0,
        Err(_) => false,
    };
    assert(call_ensures(run_exe, (e, l, rl, changed_files_path), go));
    b
}

/// The stage: off unless enabled; a declared rank list that cannot be read
/// stops the push; no declaration lets it go on; otherwise the changed
/// files of `pr_range` are written through `write_changed_files` (which
/// hands back the list's path) and the checker decides through `run_exe`.
pub fn run_ledger_completion<
    W: FnOnce(&str) -> Result<String, String>,
    X: FnOnce(&str, &str, &str, &str) -> Result<i32, String>,
>(
    config: Option<&LedgerCompletionConfig>,
    description: &str,
    pr_range: &str,
    write_changed_files: W,
    run_exe: X,
) -> (b: bool)
    requires
        call_requires(write_changed_files, (pr_range,)),
        forall|e: &str, l: &str, rl: &str, p: &str| call_requires(run_exe, (e, l, rl, p)),
    ensures
        !stage_enabled(opt_config(config)) ==> b,
        stage_enabled(opt_config(config)) ==> match rank_scan(lines(description@)) {
            Err(_) => !b,
            Ok(rs) => if rs.len() == 0 {
                b
            } else {
                exists|w: Result<String, String>|
                    call_ensures(write_changed_files, (pr_range,), w) && match w {
                        Err(_) => !b,
                        Ok(p) => ran_checker(run_exe, opt_config(config), rs, p@, b),
                    }
            },
        },
{
    let enabled = match config {
        Some(c) => match c.enabled {
            Some(e) => e,
            None => false,
        },
        None => false,
    };
    if !enabled {
        return true;
    }
    let ranks = match parse_rank_trailers(description) {
        Ok(r) => r,
        Err(_) => {
            return false;
        },
    };
    if ranks.len() == 0 {
        return true;
    }
    let w = write_changed_files(pr_range);
    let ghost gw = w;
    let b = match w {
        Err(_) => false,
        Ok(path) => verify_declared_ranks(config, ranks.as_slice(), path.as_str(), run_exe),
    };
    assert(call_ensures(write_changed_files, (pr_range,), gw));
    b
}

} // verus!
