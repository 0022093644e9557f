//! PR size check: the changed lines of `<default_branch>..@` (insertions plus
//! deletions, from the summary line of `jj diff --stat`) are held against two
//! thresholds. Above the warning threshold the push goes on with a warning;
//! above the block threshold it stops, unless the override is set. A `jj`
//! failure or an unreadable summary never stops the push.
use vstd::prelude::*;

use crate::config::pr_size_check::{
    PrSizeCheckConfig, DEFAULT_PR_SIZE_BLOCK_THRESHOLD, DEFAULT_PR_SIZE_WARNING_THRESHOLD,
};
use crate::stages::scratch_file_warning::{opt_str_view, override_active};
use crate::text::{
    append_str, chars_of, contains, digits_value, find, find_from_exec, is_digit,
    lemma_skip_ws_back_bounds, lines, owned, parse_digits, skip_ws_back, split_lines,
    string_of, trim, trim_end, trim_end_span, trim_span, trim_string,
};

verus! {

// ---------------------------------------------------------------------------
// Specifications
// ---------------------------------------------------------------------------

/// The start of the run of digits that ends at `j` in `p`.
pub open spec fn digit_start(p: Seq<char>, j: int) -> int
    decreases j,
{
    if 0 < j <= p.len() && is_digit(p[j - 1]) {
        digit_start(p, j - 1)
    } else {
        j
    }
}

/// The number written just before the first `token` in `s` (whitespace in
/// between is skipped); `None` when `token` does not occur, no digit stands
/// there, or the number does not fit in `usize`.
pub open spec fn number_before(s: Seq<char>, token: Seq<char>) -> Option<nat> {
    match find(s, token) {
        None => None,
        Some(idx) => {
            let p = s.take(idx);
            let e = skip_ws_back(p, idx);
            let b = digit_start(p, e);
            if b < e && digits_value(p.subrange(b, e)) <= usize::MAX {
                Some(digits_value(p.subrange(b, e)))
            } else {
                None
            }
        },
    }
}

/// The value of an optional count, zero when absent.
pub open spec fn or_zero(n: Option<nat>) -> nat {
    match n {
        Some(v) => v,
        None => 0,
    }
}

/// Insertions plus deletions on a `jj diff --stat` summary line. `None` for a
/// blank line, for a line with neither count that does not say
/// `files changed`, and for a total that does not fit in `usize`.
pub open spec fn total_lines(line: Seq<char>) -> Option<nat> {
    let t = trim(line);
    let i = or_zero(number_before(t, "insertion"@));
    let d = or_zero(number_before(t, "deletion"@));
    if t.len() == 0 {
        None
    } else if i == 0 && d == 0 && !contains(t, "files changed"@) {
        None
    } else if i + d <= usize::MAX {
        Some(i + d)
    } else {
        None
    }
}

/// The last line that is not blank (empty when there is none).
pub open spec fn last_nonblank_line(ls: Seq<Seq<char>>) -> Seq<char>
    decreases ls.len(),
{
    if ls.len() == 0 {
        seq![]
    } else if trim(ls.last()).len() > 0 {
        ls.last()
    } else {
        last_nonblank_line(ls.drop_last())
    }
}

/// The section turns the check on.
pub open spec fn check_enabled(config: Option<PrSizeCheckConfig>) -> bool {
    match config {
        Some(c) => c.enabled == Some(true),
        None => false,
    }
}

/// The base branch in force: the configured one, trimmed, or `master` when blank or unset.
pub open spec fn default_branch_in_force(config: Option<PrSizeCheckConfig>) -> Seq<char> {
    match config {
        Some(c) => match c.default_branch {
            Some(b) => if trim(b@).len() > 0 {
                trim(b@)
            } else {
                "master"@
            },
            None => "master"@,
        },
        None => "master"@,
    }
}

/// The warning threshold in force.
pub open spec fn warning_in_force(config: Option<PrSizeCheckConfig>) -> usize {
    match config {
        Some(c) => match c.warning_threshold {
            Some(n) => n,
            None => DEFAULT_PR_SIZE_WARNING_THRESHOLD,
        },
        None => DEFAULT_PR_SIZE_WARNING_THRESHOLD,
    }
}

/// The block threshold in force.
pub open spec fn block_in_force(config: Option<PrSizeCheckConfig>) -> usize {
    match config {
        Some(c) => match c.block_threshold {
            Some(n) => n,
            None => DEFAULT_PR_SIZE_BLOCK_THRESHOLD,
        },
        None => DEFAULT_PR_SIZE_BLOCK_THRESHOLD,
    }
}

/// The push may go on after a measurement: always, unless the total is
/// known and above the block threshold without the override.
pub open spec fn size_allows_push(
    outcome: Result<Seq<char>, Seq<char>>,
    block: usize,
    overridden: bool,
) -> bool {
    match outcome {
        Err(_) => true,
        Ok(line) => match total_lines(line) {
            None => true,
            Some(t) => t <= block || overridden,
        },
    }
}

/// The view of an optional config reference.
pub open spec fn opt_config(config: Option<&PrSizeCheckConfig>) -> Option<PrSizeCheckConfig> {
    match config {
        Some(c) => Some(*c),
        None => None,
    }
}

/// The views of a measurement's outcome.
pub open spec fn outcome_view(o: Result<String, String>) -> Result<Seq<char>, Seq<char>> {
    match o {
        Ok(s) => Ok(s@),
        Err(e) => Err(e@),
    }
}

/// Where a total stands against the thresholds.
pub enum PrSizeLevel {
    /// At or below the warning threshold.
    Within,
    /// Above the warning threshold, at or below the block threshold.
    Warning,
    /// Above the block threshold.
    Blocking,
}

// ---------------------------------------------------------------------------
// Executable functions
// ---------------------------------------------------------------------------

/// Whether the push may go on with `total` changed lines: at or below the
/// block threshold, or above it with the override set.
pub fn classify_and_log(
    total: usize,
    warning: usize,
    block: usize,
    revset: &str,
    override_active: bool,
) -> (b: bool)
    ensures
        b == (total <= block || override_active),
{
    total <= block || override_active
}

/// Where `total` stands against the thresholds (the block threshold wins).
pub fn pr_size_level(total: usize, warning: usize, block: usize) -> (l: PrSizeLevel)
    ensures
        l is Blocking <==> total > block,
        l is Warning <==> total <= block && total > warning,
        l is Within <==> total <= block && total <= warning,
{
    if total > block {
        PrSizeLevel::Blocking
    } else if total > warning {
        PrSizeLevel::Warning
    } else {
        PrSizeLevel::Within
    }
}

/// The base branch in force.
pub fn effective_default_branch(config: Option<&PrSizeCheckConfig>) -> (r: String)
    ensures
        r@ == default_branch_in_force(opt_config(config)),
{
    if let Some(c) = config {
        if let Some(b) = &c.default_branch {
            let t = trim_string(b.as_str());
            if !t.as_str().is_empty() {
                return t;
            }
        }
    }
    owned("master")
}

/// The warning threshold in force.
pub fn effective_warning_threshold(config: Option<&PrSizeCheckConfig>) -> (n: usize)
    ensures
        n == warning_in_force(opt_config(config)),
{
    match config {
        Some(c) => match c.warning_threshold {
            Some(n) => n,
            None => DEFAULT_PR_SIZE_WARNING_THRESHOLD,
        },
        None => DEFAULT_PR_SIZE_WARNING_THRESHOLD,
    }
}

/// The block threshold in force.
pub fn effective_block_threshold(config: Option<&PrSizeCheckConfig>) -> (n: usize)
    ensures
        n == block_in_force(opt_config(config)),
{
    match config {
        Some(c) => match c.block_threshold {
            Some(n) => n,
            None => DEFAULT_PR_SIZE_BLOCK_THRESHOLD,
        },
        None => DEFAULT_PR_SIZE_BLOCK_THRESHOLD,
    }
}

/// The last line of `jj diff --stat` output that is not blank (the summary
/// line), or an empty string.
pub fn extract_summary_line(stdout: &str) -> (r: String)
    ensures
        r@ == last_nonblank_line(lines(stdout@)),
{
    let ls = split_lines(stdout);
    let ghost ln = lines(stdout@);
    assert(ln == crate::text::vviews(ls@));
    assert(ln.take(ls@.len() as int) == ln);
    let mut k: usize = ls.len();
    while k > 0
        invariant
            k <= ls@.len(),
            ln == lines(stdout@),
            ln == crate::text::vviews(ls@),
            last_nonblank_line(ln) == last_nonblank_line(ln.take(k as int)),
        decreases k,
    {
        let l = &ls[k - 1];
        let (a, b) = trim_span(l.as_slice(), 0, l.len());
        proof {
            assert(l@.subrange(0, l@.len() as int) == l@);
            assert(ln.take(k as int).drop_last() == ln.take(k - 1));
            assert(ln.take(k as int).last() == l@);
        }
        if a < b {
            assert(trim(l@).len() > 0);
            assert(trim(ln.take(k as int).last()).len() > 0);
            assert(last_nonblank_line(ln.take(k as int)) == l@);
            let r = string_of(l.as_slice());
            return r;
        }
        k -= 1;
    }
    assert(ln.take(0).len() == 0);
    String::new()
}

/// The number written just before the first `token` in `line`.
pub fn extract_number_before(line: &str, token: &str) -> (r: Option<usize>)
    ensures
        match r {
            Some(n) => number_before(line@, token@) == Some(n as nat),
            None => number_before(line@, token@) is None,
        },
{
    let v = chars_of(line);
    let t = chars_of(token);
    assert(v@.subrange(0, v@.len() as int) == v@);
    let idx = match find_from_exec(&v, v.len(), &t, 0) {
        None => {
            return None;
        },
        Some(idx) => idx,
    };
    proof {
        crate::text::lemma_find_from(v@, t@, 0);
    }
    let ghost p = v@.take(idx as int);
    let e = trim_end_span(&v, 0, idx);
    proof {
        assert(v@.subrange(0, idx as int) == p);
        lemma_skip_ws_back_bounds(p, idx as int);
        assert(p.len() == idx);
        assert(trim_end(p).len() == skip_ws_back(p, idx as int));
        assert(v@.subrange(0, e as int).len() == e);
        assert(e == skip_ws_back(p, idx as int));
    }
    let mut j: usize = e;
    while j > 0 && '0' <= v[j - 1] && v[j - 1] <= '9'
        invariant
            j <= e <= idx <= v@.len(),
            p == v@.take(idx as int),
            digit_start(p, e as int) == digit_start(p, j as int),
        decreases j,
    {
        j -= 1;
    }
    assert(digit_start(p, j as int) == j);
    assert(p.subrange(j as int, e as int) == v@.subrange(j as int, e as int));
    match parse_digits(&v, j, e, usize::MAX as u64) {
        Some(n) => Some(n as usize),
        None => {
            proof {
                if j < e {
                    assert forall|q: int| j <= q < e implies is_digit(#[trigger] v@[q]) by {
                        lemma_digit_run(p, e as int, j as int, q);
                    }
                }
            }
            None
        },
    }
}

proof fn lemma_digit_run(p: Seq<char>, e: int, j: int, q: int)
    requires
        0 <= e <= p.len(),
        j == digit_start(p, e),
        j <= q < e,
    ensures
        is_digit(p[q]),
    decreases e,
{
    if 0 < e && is_digit(p[e - 1]) {
        if q < e - 1 {
            lemma_digit_run(p, e - 1, j, q);
        }
    }
}

/// Insertions plus deletions on a `jj diff --stat` summary line (either
/// count may be missing). A total that does not fit in `usize` counts as
/// unreadable.
pub fn parse_total_lines(line: &str) -> (r: Option<usize>)
    ensures
        match r {
            Some(n) => total_lines(line@) == Some(n as nat),
            None => total_lines(line@) is None,
        },
{
    let trimmed = trim_string(line);
    if trimmed.as_str().is_empty() {
        return None;
    }
    let ins = match extract_number_before(trimmed.as_str(), "insertion") {
        Some(n) => n,
        None => 0,
    };
    let del = match extract_number_before(trimmed.as_str(), "deletion") {
        Some(n) => n,
        None => 0,
    };
    if ins == 0 && del == 0 {
        let tv = chars_of(trimmed.as_str());
        let fc = chars_of("files changed");
        if find_from_exec(&tv, tv.len(), &fc, 0).is_none() {
            assert(tv@.subrange(0, tv@.len() as int) == tv@);
            return None;
        }
        assert(tv@.subrange(0, tv@.len() as int) == tv@);
    }
    ins.checked_add(del)
}

/// Whether the override variable's value turns the block off.
pub fn parse_override_env(raw: Option<&str>) -> (b: bool)
    ensures
        b == override_active(opt_str_view(raw)),
{
    crate::stages::scratch_file_warning::parse_override_env(raw)
}

/// The revset of the pull request: `<default_branch>..@`.
pub open spec fn pr_revset(branch: Seq<char>) -> Seq<char> {
    branch + "..@"@
}

/// Runs the check when the section turns it on: `diff_stat` runs
/// `jj diff --stat` on the given revset and hands back its summary line, and
/// `override_raw` is the value of the override variable. Whether the push
/// may go on.
pub fn run_pr_size_check<F: FnOnce(&str) -> Result<String, String>>(
    config: Option<&PrSizeCheckConfig>,
    diff_stat: F,
    override_raw: Option<&str>,
) -> (b: bool)
    requires
        forall|rev: &str| call_requires(diff_stat, (rev,)),
    ensures
        !check_enabled(opt_config(config)) ==> b,
        check_enabled(opt_config(config)) ==> exists|rev: &str, out: Result<String, String>|
            rev@ == pr_revset(default_branch_in_force(opt_config(config))) && call_ensures(
                diff_stat,
                (rev,),
                out,
            ) && b == size_allows_push(
                outcome_view(out),
                block_in_force(opt_config(config)),
                override_active(opt_str_view(override_raw)),
            ),
{
    let enabled = match config {
        Some(c) => match c.enabled {
            Some(e) => e,
            None => false,
        },
        None => false,
    };
    if !enabled {
        return true;
    }
    let branch = effective_default_branch(config);
    let warning = effective_warning_threshold(config);
    let block = effective_block_threshold(config);
    let mut rv: Vec<char> = chars_of(branch.as_str());
    append_str(&mut rv, "..@");
    let revset = string_of(&rv);
    let rs: &str = revset.as_str();
    let out = diff_stat(rs);
    let overridden = parse_override_env(override_raw);
    let b = match &out {
        Err(_) => true,
        Ok(line) => match parse_total_lines(line.as_str()) {
            None => true,
            Some(total) => classify_and_log(total, warning, block, rs, overridden),
        },
    };
    assert(call_ensures(diff_stat, (rs,), out));
    b
}

} // verus!
