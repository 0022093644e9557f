//! Which takt run's reports the verdict gate reads: chosen by what the
//! runs' `meta.json` say, not by file times. A run qualifies when its
//! workflow is the one this push started, its report directory lies under
//! `.takt/runs/`, and it started within `[started_at, now]`; exactly one
//! run must qualify.
use vstd::prelude::*;

use crate::stages::diff::normalize_sep;
use crate::stages::testability_gate::normalize;
use crate::text::{chars_eq, chars_of, span_starts_with, split_char, split_on_char, starts_with, vviews};

verus! {

/// What the selection reads of a run's `meta.json`.
#[derive(Debug, PartialEq, Eq)]
pub struct RunMeta {
    /// The workflow name.
    pub piece: String,
    /// The ISO 8601 start time.
    pub start_time: String,
    /// Where the reports are, relative to the repository.
    pub report_directory: String,
}

/// The outcome of the selection: no run and several runs are told apart,
/// though neither lets the push through.
#[derive(Debug, PartialEq, Eq)]
pub enum RunSelection<'a> {
    Found(&'a RunMeta),
    NotFound,
    /// This many runs qualified.
    Ambiguous(usize),
}

// ---------------------------------------------------------------------------
// Specifications
// ---------------------------------------------------------------------------

/// A relative path under `.takt/runs/` with no `..` component.
pub open spec fn under_runs_dir(d: Seq<char>) -> bool {
    let n = normalize_sep(d);
    let parts = split_char(n, '/');
    starts_with(n, ".takt/runs/"@) && (forall|i: int|
        0 <= i < parts.len() ==> #[trigger] parts[i] != ".."@) && !starts_with(n, "/"@)
}

/// A run of the workflow, under the runs directory: the runs whose start
/// time is looked at.
pub open spec fn eligible(m: RunMeta, workflow: Seq<char>) -> bool {
    m.piece@ == workflow && under_runs_dir(m.report_directory@)
}

/// An eligible run whose start time `t` lies in `[started, until]`.
pub open spec fn in_window(
    m: RunMeta,
    workflow: Seq<char>,
    t: Option<i64>,
    started: i64,
    until: i64,
) -> bool {
    eligible(m, workflow) && (t matches Some(x) && started <= x && x <= until)
}

/// How many of the first `n` runs qualify, `ts` holding their start times.
pub open spec fn window_count(
    cs: Seq<RunMeta>,
    ts: Seq<Option<i64>>,
    workflow: Seq<char>,
    started: i64,
    until: i64,
    n: int,
) -> nat
    decreases n,
{
    if n <= 0 {
        0
    } else {
        window_count(cs, ts, workflow, started, until, n - 1) + if in_window(
            cs[n - 1],
            workflow,
            ts[n - 1],
            started,
            until,
        ) {
            1nat
        } else {
            0nat
        }
    }
}

/// `epoch` gave `s` for the push's start and `u` for now, and `ts` holds
/// what it gave for the start time of each eligible run.
pub open spec fn times_for<E: Fn(&str) -> Option<i64>>(
    cs: Seq<RunMeta>,
    workflow: Seq<char>,
    started_at: &str,
    now: &str,
    epoch: E,
    s: i64,
    u: i64,
    ts: Seq<Option<i64>>,
) -> bool {
    &&& call_ensures(epoch, (started_at,), Some(s))
    &&& call_ensures(epoch, (now,), Some(u))
    &&& ts.len() == cs.len()
    &&& exists|args: Seq<&str>|
        args.len() == cs.len() && forall|i: int|
            0 <= i < cs.len() && #[trigger] eligible(cs[i], workflow) ==> args[i]@
                == cs[i].start_time@ && call_ensures(epoch, (args[i],), ts[i])
}

/// Run `k` is the one run that qualifies.
pub open spec fn found_run<E: Fn(&str) -> Option<i64>>(
    cs: Seq<RunMeta>,
    workflow: Seq<char>,
    started_at: &str,
    now: &str,
    epoch: E,
    k: int,
) -> bool {
    exists|s: i64, u: i64, ts: Seq<Option<i64>>|
        #[trigger] times_for(cs, workflow, started_at, now, epoch, s, u, ts) && window_count(
            cs,
            ts,
            workflow,
            s,
            u,
            cs.len() as int,
        ) == 1 && 0 <= k < cs.len() && in_window(cs[k], workflow, ts[k], s, u)
}

/// No run qualifies, or a time of the push could not be read.
pub open spec fn no_run<E: Fn(&str) -> Option<i64>>(
    cs: Seq<RunMeta>,
    workflow: Seq<char>,
    started_at: &str,
    now: &str,
    epoch: E,
) -> bool {
    (exists|a: Option<i64>, b: Option<i64>|
        #[trigger] call_ensures(epoch, (started_at,), a) && #[trigger] call_ensures(
            epoch,
            (now,),
            b,
        ) && (a is None || b is None)) || exists|s: i64, u: i64, ts: Seq<Option<i64>>|
        #[trigger] times_for(cs, workflow, started_at, now, epoch, s, u, ts) && window_count(
            cs,
            ts,
            workflow,
            s,
            u,
            cs.len() as int,
        ) == 0
}

/// `n` runs qualify.
pub open spec fn runs_in_window<E: Fn(&str) -> Option<i64>>(
    cs: Seq<RunMeta>,
    workflow: Seq<char>,
    started_at: &str,
    now: &str,
    epoch: E,
    n: nat,
) -> bool {
    exists|s: i64, u: i64, ts: Seq<Option<i64>>|
        #[trigger] times_for(cs, workflow, started_at, now, epoch, s, u, ts) && window_count(
            cs,
            ts,
            workflow,
            s,
            u,
            cs.len() as int,
        ) == n
}

// ---------------------------------------------------------------------------
// Lemmas
// ---------------------------------------------------------------------------

proof fn lemma_window_count_prefix(
    cs: Seq<RunMeta>,
    ts1: Seq<Option<i64>>,
    ts2: Seq<Option<i64>>,
    workflow: Seq<char>,
    started: i64,
    until: i64,
    n: int,
)
    requires
        n <= ts1.len(),
        n <= ts2.len(),
        forall|j: int| 0 <= j < n ==> ts1[j] == ts2[j],
    ensures
        window_count(cs, ts1, workflow, started, until, n) == window_count(
            cs,
            ts2,
            workflow,
            started,
            until,
            n,
        ),
    decreases n,
{
    if n > 0 {
        lemma_window_count_prefix(cs, ts1, ts2, workflow, started, until, n - 1);
    }
}

// ---------------------------------------------------------------------------
// Executable functions
// ---------------------------------------------------------------------------

/// Whether a report directory is a relative path under `.takt/runs/` with
/// no `..` component (`\` counts as `/`).
pub fn is_under_runs_dir(report_directory: &str) -> (b: bool)
    ensures
        b == under_runs_dir(report_directory@),
{
    let n = normalize(report_directory);
    let nv = chars_of(n.as_str());
    let prefix = chars_of(".takt/runs/");
    let slash = chars_of("/");
    assert(nv@.subrange(0, nv@.len() as int) == nv@);
    if !span_starts_with(&nv, 0, nv.len(), &prefix) {
        return false;
    }
    let parts = split_on_char(&nv, '/');
    let ghost ps = vviews(parts@);
    let dots = chars_of("..");
    let mut k: usize = 0;
    while k < parts.len()
        invariant
            k <= parts@.len(),
            ps == vviews(parts@),
            ps == split_char(normalize_sep(report_directory@), '/'),
            dots@ == ".."@,
            forall|i: int| 0 <= i < k ==> #[trigger] ps[i] != ".."@,
        decreases parts@.len() - k,
    {
        if chars_eq(parts[k].as_slice(), &dots) {
            assert(ps[k as int] == ".."@);
            return false;
        }
        k += 1;
    }
    !span_starts_with(&nv, 0, nv.len(), &slash)
}

/// Chooses the run this push started among `candidates`: `epoch` reads an
/// ISO 8601 time as seconds. When the push's start or now cannot be read,
/// or no run qualifies, there is none; when several do, the selection is
/// ambiguous.
pub fn select_run<'a, E: Fn(&str) -> Option<i64>>(
    candidates: &'a [RunMeta],
    workflow: &str,
    started_at: &str,
    now: &str,
    epoch: &E,
) -> (r: RunSelection<'a>)
    requires
        forall|s: &str| call_requires(*epoch, (s,)),
    ensures
        match r {
            RunSelection::Found(m) => exists|k: int|
                0 <= k < candidates@.len() && *m == candidates@[k] && found_run(
                    candidates@,
                    workflow@,
                    started_at,
                    now,
                    *epoch,
                    k,
                ),
            RunSelection::NotFound => no_run(candidates@, workflow@, started_at, now, *epoch),
            RunSelection::Ambiguous(n) => n >= 2 && runs_in_window(
                candidates@,
                workflow@,
                started_at,
                now,
                *epoch,
                n as nat,
            ),
        },
{
    let started = epoch(started_at);
    let ghost started_g = started;
    assert(call_ensures(*epoch, (started_at,), started_g));
    let until = epoch(now);
    let ghost until_g = until;
    assert(call_ensures(*epoch, (now,), until_g));
    let (s, u) = match (started, until) {
        (Some(s), Some(u)) => (s, u),
        _ => {
            assert(call_ensures(*epoch, (started_at,), started_g) && call_ensures(
                *epoch,
                (now,),
                until_g,
            ) && (started_g is None || until_g is None));
            return RunSelection::NotFound;
        },
    };
    let ghost cs = candidates@;
    let ghost mut args: Seq<&str> = Seq::empty();
    let ghost mut ts: Seq<Option<i64>> = Seq::empty();
    let wv = chars_of(workflow);
    let mut count: usize = 0;
    let mut first: usize = 0;
    let mut i: usize = 0;
    while i < candidates.len()
        invariant
            i <= candidates@.len(),
            cs == candidates@,
            wv@ == workflow@,
            forall|s: &str| call_requires(*epoch, (s,)),
            args.len() == i,
            ts.len() == i,
            forall|j: int|
                0 <= j < i && #[trigger] eligible(cs[j], workflow@) ==> args[j]@
                    == cs[j].start_time@ && call_ensures(*epoch, (args[j],), ts[j]),
            count == window_count(cs, ts, workflow@, s, u, i as int),
            count <= i,
            count >= 1 ==> first < i && in_window(cs[first as int], workflow@, ts[first as int], s, u),
        decreases candidates@.len() - i,
    {
        let c = &candidates[i];
        let pv = chars_of(c.piece.as_str());
        let ghost old_ts = ts;
        if chars_eq(&pv, &wv) && is_under_runs_dir(c.report_directory.as_str()) {
            let a: &str = c.start_time.as_str();
            let t = epoch(a);
            let ghost t_g = t;
            assert(call_ensures(*epoch, (a,), t_g));
            proof {
                args = args.push(a);
                ts = ts.push(t_g);
            }
            let hit = match t {
                Some(x) => s <= x && x <= u,
                None => false,
            };
            proof {
                lemma_window_count_prefix(cs, old_ts, ts, workflow@, s, u, i as int);
                assert(in_window(cs[i as int], workflow@, ts[i as int], s, u) == hit);
            }
            if hit {
                if count == 0 {
                    first = i;
                }
                count += 1;
            }
        } else {
            proof {
                args = args.push(started_at);
                ts = ts.push(None);
                lemma_window_count_prefix(cs, old_ts, ts, workflow@, s, u, i as int);
                assert(!eligible(cs[i as int], workflow@));
            }
        }
        i += 1;
    }
    proof {
        assert(started_g == Some(s) && until_g == Some(u));
        assert(times_for(cs, workflow@, started_at, now, *epoch, s, u, ts));
    }
    if count == 0 {
        RunSelection::NotFound
    } else if count == 1 {
        let r = RunSelection::Found(&candidates[first]);
        assert(in_window(cs[first as int], workflow@, ts[first as int], s, u));
        assert(found_run(cs, workflow@, started_at, now, *epoch, first as int));
        r
    } else {
        RunSelection::Ambiguous(count)
    }
}

} // verus!
