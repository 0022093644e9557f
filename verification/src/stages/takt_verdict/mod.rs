//! The takt verdict gate: a push whose reviews did not all approve is
//! stopped. The run this push started is chosen from the runs' metadata
//! (`run_dir`), its reports are read (`detect`), and any report that does
//! not approve, an empty report set, or a run that cannot be told stops
//! the push.
pub mod detect;
pub mod run_dir;

use vstd::prelude::*;

use crate::config::takt_verdict_gate::TaktVerdictGateConfig;
use crate::text::owned;
use detect::{blockers, blocking_reports, report_view, Verdict};
use run_dir::{found_run, no_run, runs_in_window, select_run, RunMeta, RunSelection};

verus! {

/// The stage runs unless the section says `enabled = false`.
pub open spec fn gate_enabled(config: Option<TaktVerdictGateConfig>) -> bool {
    match config {
        Some(c) => c.enabled != Some(false),
        None => true,
    }
}

/// The view of an optional config reference.
pub open spec fn opt_config(config: Option<&TaktVerdictGateConfig>) -> Option<TaktVerdictGateConfig> {
    match config {
        Some(c) => Some(*c),
        None => None,
    }
}

/// The reports' names and bodies as spec values.
pub open spec fn reports_view(reports: Seq<(String, Option<String>)>) -> Seq<(Seq<char>, Option<Seq<char>>)> {
    reports.map_values(|x: (String, Option<String>)| report_view(x))
}

/// Whether the stage runs: on by default, off only with `enabled = false`.
pub fn enabled(config: Option<&TaktVerdictGateConfig>) -> (b: bool)
    ensures
        b == gate_enabled(opt_config(config)),
{
    match config {
        Some(c) => match c.enabled {
            Some(e) => e,
            None => true,
        },
        None => true,
    }
}

/// How a verdict is shown to the user.
pub fn describe(verdict: &Verdict) -> (r: String)
    ensures
        match verdict {
            Verdict::Approve => r@ == "APPROVE"@,
            Verdict::Blocking(v) => r@ == v@,
            Verdict::Missing => r@ == "`## Result:` 行がありません"@,
        },
{
    match verdict {
        Verdict::Approve => owned("APPROVE"),
        Verdict::Blocking(value) => owned(value.as_str()),
        Verdict::Missing => owned("`## Result:` 行がありません"),
    }
}

/// Whether the push may go on. `run_metas` gives the runs' metadata,
/// `reports` the named report bodies of a report directory, `epoch` reads
/// an ISO 8601 time as seconds; `workflow` and `started_at` are what the
/// takt stage started, `now` the time of the check. The push goes on
/// when the stage is off or overridden; else only when exactly one run of
/// this push qualifies and its reports, of which there is at least one,
/// all approve. It is stopped only when no run or several runs qualify, or
/// the one run's reports are empty or hold one that does not approve.
pub fn run_takt_verdict_gate_with<
    FM: FnOnce() -> Vec<RunMeta>,
    FR: FnOnce(&str) -> Vec<(String, Option<String>)>,
    E: Fn(&str) -> Option<i64>,
>(
    config: Option<&TaktVerdictGateConfig>,
    workflow: &str,
    started_at: &str,
    now: &str,
    override_active: bool,
    run_metas: FM,
    reports: FR,
    epoch: &E,
) -> (b: bool)
    requires
        call_requires(run_metas, ()),
        forall|d: &str| call_requires(reports, (d,)),
        forall|s: &str| call_requires(*epoch, (s,)),
    ensures
        !gate_enabled(opt_config(config)) ==> b,
        override_active ==> b,
        b && gate_enabled(opt_config(config)) && !override_active
            ==> exists|metas: Vec<RunMeta>, k: int, dir: &str, reps: Vec<(String, Option<String>)>|
            #![trigger call_ensures(run_metas, (), metas), call_ensures(reports, (dir,), reps), metas@[k]]
            call_ensures(run_metas, (), metas) && found_run(
                metas@,
                workflow@,
                started_at,
                now,
                *epoch,
                k,
            ) && dir@ == metas@[k].report_directory@ && call_ensures(reports, (dir,), reps)
                && reps@.len() > 0 && blockers(reports_view(reps@)).len() == 0,
        !b ==> gate_enabled(opt_config(config)) && !override_active && exists|metas: Vec<RunMeta>|
            #[trigger] call_ensures(run_metas, (), metas) && (no_run(
                metas@,
                workflow@,
                started_at,
                now,
                *epoch,
            ) || (exists|n: nat|
                n >= 2 && #[trigger] runs_in_window(
                    metas@,
                    workflow@,
                    started_at,
                    now,
                    *epoch,
                    n,
                )) || exists|k: int, dir: &str, reps: Vec<(String, Option<String>)>|
                #![trigger call_ensures(reports, (dir,), reps), metas@[k]]
                found_run(metas@, workflow@, started_at, now, *epoch, k) && dir@
                    == metas@[k].report_directory@ && call_ensures(reports, (dir,), reps) && (
                reps@.len() == 0 || blockers(reports_view(reps@)).len() > 0)),
{
    if !enabled(config) {
        return true;
    }
    if override_active {
        return true;
    }
    let metas = run_metas();
    let ghost metas_g = metas;
    assert(call_ensures(run_metas, (), metas_g));
    let run = match select_run(metas.as_slice(), workflow, started_at, now, epoch) {
        RunSelection::Found(run) => run,
        RunSelection::NotFound => {
            return false;
        },
        RunSelection::Ambiguous(_) => {
            return false;
        },
    };
    let dir: &str = run.report_directory.as_str();
    let reps = reports(dir);
    let ghost reps_g = reps;
    assert(call_ensures(reports, (dir,), reps_g));
    let found = blocking_reports(reps.as_slice());
    if found.len() == 0 {
        assert(reps@.len() > 0);
        return true;
    }
    false
}

} // verus!
