//! Quality gate: the configured command groups must all pass. Groups named
//! by the docs-only routing are skipped, but a skip list that would leave
//! nothing to run is ignored (no gate passes by running nothing).
use vstd::prelude::*;

use crate::config::quality_gate::{GroupConfig, QualityGateConfig, DEFAULT_STEP_TIMEOUT_SECS};
use crate::text::views;

verus! {

// ---------------------------------------------------------------------------
// Specifications
// ---------------------------------------------------------------------------

/// The groups whose name the skip list does not hold, in order.
pub open spec fn kept_groups(gs: Seq<GroupConfig>, skip: Seq<Seq<char>>) -> Seq<GroupConfig> {
    gs.filter(|g: GroupConfig| !skip.contains(g.name@))
}

/// The groups to run: all of them when nothing is skipped or when the skip
/// list would leave none; otherwise those not skipped.
pub open spec fn groups_to_run(gs: Seq<GroupConfig>, skip: Seq<Seq<char>>) -> Seq<GroupConfig> {
    if skip.len() == 0 || kept_groups(gs, skip).len() == 0 {
        gs
    } else {
        kept_groups(gs, skip)
    }
}

/// The groups behind a list of references.
pub open spec fn derefs(rs: Seq<&GroupConfig>) -> Seq<GroupConfig> {
    rs.map_values(|g: &GroupConfig| *g)
}

/// The skip names that no group has.
pub open spec fn unknown_names(gs: Seq<GroupConfig>, skip: Seq<Seq<char>>) -> Seq<Seq<char>> {
    skip.filter(|n: Seq<char>| !gs.map_values(|g: GroupConfig| g.name@).contains(n))
}

/// `b` is what the quality groups gave: the groups to run went to
/// `run_groups` with the timeout and parallel setting in force, and `b`
/// says whether every result was a pass.
pub open spec fn gate_verdict<R: FnOnce(Vec<&GroupConfig>, u64, bool) -> Vec<bool>>(
    config: QualityGateConfig,
    skip: Seq<Seq<char>>,
    run_groups: R,
    b: bool,
) -> bool {
    exists|gs: Vec<&GroupConfig>, results: Vec<bool>|
        derefs(gs@) == groups_to_run(config.groups@, skip) && call_ensures(
            run_groups,
            (
                gs,
                match config.step_timeout {
                    Some(t) => t,
                    None => DEFAULT_STEP_TIMEOUT_SECS,
                },
                match config.parallel {
                    Some(p) => p,
                    None => true,
                },
            ),
            results,
        ) && b == all_pass(results@)
}

/// Every result is a pass.
pub open spec fn all_pass(results: Seq<bool>) -> bool {
    forall|i: int| 0 <= i < results.len() ==> #[trigger] results[i]
}

// ---------------------------------------------------------------------------
// Laws
// ---------------------------------------------------------------------------

/// With at least one group configured, at least one group runs, whatever
/// the skip list says.
pub proof fn lemma_some_group_runs(gs: Seq<GroupConfig>, skip: Seq<Seq<char>>)
    requires
        gs.len() > 0,
    ensures
        groups_to_run(gs, skip).len() > 0,
{
}

// ---------------------------------------------------------------------------
// Executable functions
// ---------------------------------------------------------------------------

/// Whether `list` holds `s`.
fn holds(list: &[String], s: &String) -> (b: bool)
    ensures
        b == views(list@).contains(s@),
{
    let mut k: usize = 0;
    while k < list.len()
        invariant
            k <= list@.len(),
            forall|j: int| 0 <= j < k ==> list@[j]@ != s@,
        decreases list@.len() - k,
    {
        if list[k] == *s {
            assert(views(list@)[k as int] == s@);
            return true;
        }
        k += 1;
    }
    proof {
        if views(list@).contains(s@) {
            let j = choose|j: int| 0 <= j < views(list@).len() && views(list@)[j] == s@;
            assert(list@[j]@ == s@);
        }
    }
    false
}

/// The groups to run for a skip list.
pub fn effective_groups<'a>(groups: &'a [GroupConfig], skip_groups: &[String]) -> (r: Vec<
    &'a GroupConfig,
>)
    ensures
        derefs(r@) == groups_to_run(groups@, views(skip_groups@)),
        groups@.len() > 0 ==> r@.len() > 0,
{
    let ghost gs = groups@;
    let ghost skip = views(skip_groups@);
    let ghost pred = |g: GroupConfig| !skip.contains(g.name@);
    let mut all: Vec<&'a GroupConfig> = Vec::new();
    let mut kept: Vec<&'a GroupConfig> = Vec::new();
    let mut i: usize = 0;
    while i < groups.len()
        invariant
            i <= groups@.len(),
            gs == groups@,
            skip == views(skip_groups@),
            pred == (|g: GroupConfig| !skip.contains(g.name@)),
            derefs(all@) == gs.take(i as int),
            derefs(kept@) == gs.take(i as int).filter(pred),
        decreases groups@.len() - i,
    {
        let g = &groups[i];
        let skipped = holds(skip_groups, &g.name);
        proof {
            assert(gs.take(i + 1).drop_last() == gs.take(i as int));
            assert(gs.take(i + 1).last() == *g);
            assert(gs.take(i + 1).filter(pred) == if pred(*g) {
                gs.take(i as int).filter(pred).push(*g)
            } else {
                gs.take(i as int).filter(pred)
            }) by {
                reveal_with_fuel(Seq::filter, 1);
            }
        }
        let ghost before_all = all@;
        all.push(g);
        assert(derefs(all@) == derefs(before_all).push(*g));
        if !skipped {
            let ghost before = kept@;
            kept.push(g);
            assert(derefs(kept@) == derefs(before).push(*g));
        }
        i += 1;
    }
    assert(gs.take(groups@.len() as int) == gs);
    if skip_groups.len() == 0 || kept.len() == 0 {
        all
    } else {
        kept
    }
}

/// The skip names that no group has (a likely typo in the routing config).
pub fn unknown_skip_groups(groups: &[GroupConfig], skip_groups: &[String]) -> (r: Vec<String>)
    ensures
        views(r@) == unknown_names(groups@, views(skip_groups@)),
{
    let ghost names = groups@.map_values(|g: GroupConfig| g.name@);
    let ghost skip = views(skip_groups@);
    let ghost pred = |n: Seq<char>| !names.contains(n);
    let mut r: Vec<String> = Vec::new();
    let mut k: usize = 0;
    while k < skip_groups.len()
        invariant
            k <= skip_groups@.len(),
            names == groups@.map_values(|g: GroupConfig| g.name@),
            skip == views(skip_groups@),
            pred == (|n: Seq<char>| !names.contains(n)),
            views(r@) == skip.take(k as int).filter(pred),
        decreases skip_groups@.len() - k,
    {
        let name = &skip_groups[k];
        let mut found = false;
        let mut j: usize = 0;
        while j < groups.len()
            invariant
                j <= groups@.len(),
                found == (exists|q: int| 0 <= q < j && groups@[q].name@ == name@),
            decreases groups@.len() - j,
        {
            if groups[j].name == *name {
                found = true;
            }
            j += 1;
        }
        proof {
            if found {
                let q = choose|q: int| 0 <= q < groups@.len() && groups@[q].name@ == name@;
                assert(names[q] == name@);
            }
            if names.contains(name@) {
                let q = choose|q: int| 0 <= q < names.len() && names[q] == name@;
                assert(groups@[q].name@ == name@);
            }
            assert(skip.take(k + 1).drop_last() == skip.take(k as int));
            assert(skip.take(k + 1).last() == name@);
            assert(skip.take(k + 1).filter(pred) == if pred(name@) {
                skip.take(k as int).filter(pred).push(name@)
            } else {
                skip.take(k as int).filter(pred)
            }) by {
                reveal_with_fuel(Seq::filter, 1);
            }
        }
        if !found {
            let ghost before = r@;
            r.push(name.clone());
            assert(views(r@) == views(before).push(name@));
        }
        k += 1;
    }
    assert(skip.take(skip_groups@.len() as int) == skip);
    r
}

/// Runs the quality groups: those to run go to `run_groups` with the step
/// timeout (default 120 s) and whether to run them in parallel (default
/// yes), which hands back one pass/fail per group. Whether all passed.
pub fn run_quality_gate<R: FnOnce(Vec<&GroupConfig>, u64, bool) -> Vec<bool>>(
    config: &QualityGateConfig,
    skip_groups: &[String],
    run_groups: R,
) -> (b: bool)
    requires
        forall|gs: Vec<&GroupConfig>, t: u64, p: bool| call_requires(run_groups, (gs, t, p)),
    ensures
        gate_verdict(*config, views(skip_groups@), run_groups, b),
{
    let timeout = match config.step_timeout {
        Some(t) => t,
        None => DEFAULT_STEP_TIMEOUT_SECS,
    };
    let parallel = match config.parallel {
        Some(p) => p,
        None => true,
    };
    let groups = effective_groups(config.groups.as_slice(), skip_groups);
    let ghost gg = groups;
    let results = run_groups(groups, timeout, parallel);
    let mut all = true;
    let mut i: usize = 0;
    while i < results.len()
        invariant
            i <= results@.len(),
            all == (forall|j: int| 0 <= j < i ==> #[trigger] results@[j]),
        decreases results@.len() - i,
    {
        if !results[i] {
            all = false;
        }
        i += 1;
    }
    assert(call_ensures(run_groups, (gg, timeout, parallel), results));
    assert(derefs(gg@) == groups_to_run(config.groups@, views(skip_groups@)));
    assert(all == all_pass(results@));
    all
}

/// The steps of a group, in order: its `pre` command, then its commands.
pub open spec fn group_steps(g: GroupConfig) -> Seq<Seq<char>> {
    match g.pre {
        Some(p) => seq![p@] + views(g.commands@),
        None => views(g.commands@),
    }
}

/// `run_step` ran each of the first `n` steps of `g` (with `timeout`), and
/// `oks` tells which succeeded.
pub open spec fn steps_ran<S: Fn(&str, u64) -> (bool, String)>(
    run_step: S,
    g: GroupConfig,
    timeout: u64,
    args: Seq<&str>,
    oks: Seq<bool>,
) -> bool {
    &&& args.len() == oks.len()
    &&& args.len() <= group_steps(g).len()
    &&& forall|k: int|
        0 <= k < args.len() ==> args[k]@ == group_steps(g)[k] && exists|out: String|
            #[trigger] call_ensures(run_step, (args[k], timeout), (oks[k], out))
}

proof fn lemma_steps_ran_push<S: Fn(&str, u64) -> (bool, String)>(
    run_step: S,
    g: GroupConfig,
    timeout: u64,
    args: Seq<&str>,
    oks: Seq<bool>,
    a: &str,
    ok: bool,
    out: String,
)
    requires
        steps_ran(run_step, g, timeout, args, oks),
        args.len() < group_steps(g).len(),
        a@ == group_steps(g)[args.len() as int],
        call_ensures(run_step, (a, timeout), (ok, out)),
    ensures
        steps_ran(run_step, g, timeout, args.push(a), oks.push(ok)),
{
    let args2 = args.push(a);
    let oks2 = oks.push(ok);
    assert forall|k: int| 0 <= k < args2.len() implies args2[k]@ == group_steps(g)[k] && exists|
        o: String,
    | #[trigger] call_ensures(run_step, (args2[k], timeout), (oks2[k], o)) by {
        if k == args.len() {
            assert(args2[k] == a && oks2[k] == ok);
            assert(call_ensures(run_step, (args2[k], timeout), (oks2[k], out)));
        } else {
            assert(args2[k] == args[k] && oks2[k] == oks[k]);
            assert(args[k]@ == group_steps(g)[k]);
            let o = choose|o: String| call_ensures(run_step, (args[k], timeout), (oks[k], o));
            assert(call_ensures(run_step, (args2[k], timeout), (oks2[k], o)));
        }
    }
}

/// Runs a group's steps (its `pre` command, then its commands) through
/// `run_step` in order, stopping at the first that fails. Whether every
/// step succeeded.
pub fn run_group<S: Fn(&str, u64) -> (bool, String)>(group: &GroupConfig, timeout: u64, run_step: &S) -> (b: bool)
    requires
        forall|c: &str, t: u64| call_requires(*run_step, (c, t)),
    ensures
        exists|args: Seq<&str>, oks: Seq<bool>|
            steps_ran(*run_step, *group, timeout, args, oks) && (b <==> (args.len() == group_steps(
                *group,
            ).len() && forall|k: int| 0 <= k < oks.len() ==> #[trigger] oks[k])) && (!b ==> oks.len()
                > 0 && !oks.last() && forall|k: int| 0 <= k < oks.len() - 1 ==> #[trigger] oks[k]),
{
    let ghost steps = group_steps(*group);
    let ghost mut args: Seq<&str> = Seq::empty();
    let ghost mut oks: Seq<bool> = Seq::empty();
    let mut base: usize = 0;
    assert(steps_ran(*run_step, *group, timeout, args, oks));
    match &group.pre {
        Some(pre) => {
            let a: &str = pre.as_str();
            let (ok, out) = run_step(a, timeout);
            assert(call_ensures(*run_step, (a, timeout), (ok, out)));
            proof {
                assert(steps_ran(*run_step, *group, timeout, args, oks));
                assert(group_steps(*group)[0] == pre@);
                lemma_steps_ran_push(*run_step, *group, timeout, args, oks, a, ok, out);
                args = args.push(a);
                oks = oks.push(ok);
            }
            if !ok {
                assert(oks.last() == ok);
                return false;
            }
            base = 1;
        },
        None => {},
    }
    let mut k: usize = 0;
    while k < group.commands.len()
        invariant
            k <= group.commands@.len(),
            steps == group_steps(*group),
            base as int == steps.len() - group.commands@.len(),
            base <= 1,
            args.len() == base + k,
            steps_ran(*run_step, *group, timeout, args, oks),
            forall|j: int| 0 <= j < oks.len() ==> #[trigger] oks[j],
            forall|c: &str, t: u64| call_requires(*run_step, (c, t)),
        decreases group.commands@.len() - k,
    {
        let a: &str = group.commands[k].as_str();
        let (ok, out) = run_step(a, timeout);
        assert(call_ensures(*run_step, (a, timeout), (ok, out)));
        proof {
            assert(steps[base + k] == group.commands@[k as int]@);
            lemma_steps_ran_push(*run_step, *group, timeout, args, oks, a, ok, out);
            args = args.push(a);
            oks = oks.push(ok);
        }
        if !ok {
            assert(oks.last() == ok);
            return false;
        }
        k += 1;
    }
    true
}

} // verus!
