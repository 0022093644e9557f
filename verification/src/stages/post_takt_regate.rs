//! Post-review re-run: when the review's automatic fixes changed the diff,
//! the quality groups run again before the push. The comparison of the diff
//! before and after decides; when it cannot be made, the groups run again
//! (fail-closed).
use vstd::prelude::*;

use crate::config::post_takt_regate::PostTaktRegateConfig;
use crate::config::quality_gate::{GroupConfig, QualityGateConfig};
use crate::stages::quality_gate::{gate_verdict, run_quality_gate};
use crate::text::{chars_eq, chars_of};

verus! {

/// Whether, and why, the quality groups run again.
#[derive(Clone, Copy, Debug, PartialEq, Eq)]
pub enum RegateDecision {
    /// The re-run is not turned on.
    Disabled,
    /// The kill-switch variable is set.
    OverrideSkipped,
    /// The diff is the same before and after the review.
    NoChange,
    /// The diff changed.
    Changed,
    /// One of the two diffs could not be taken.
    Indeterminate,
}

/// The decision and whether the push may go on.
pub struct RegateOutcome {
    pub decision: RegateDecision,
    pub proceed: bool,
}

/// The decision once the diff after the review was fetched (when it was).
pub open spec fn decision_for(
    enabled: bool,
    override_active: bool,
    pre: Option<Seq<char>>,
    post: Option<Seq<char>>,
) -> RegateDecision {
    if !enabled {
        RegateDecision::Disabled
    } else if override_active {
        RegateDecision::OverrideSkipped
    } else {
        match pre {
            None => RegateDecision::Indeterminate,
            Some(p) => match post {
                None => RegateDecision::Indeterminate,
                Some(q) => if q == p {
                    RegateDecision::NoChange
                } else {
                    RegateDecision::Changed
                },
            },
        }
    }
}

/// The decision needs the diff after the review.
pub open spec fn needs_post_diff(enabled: bool, override_active: bool, pre: Option<Seq<char>>) -> bool {
    enabled && !override_active && pre is Some
}

/// The decision runs the quality groups again.
pub open spec fn reruns_gate(d: RegateDecision) -> bool {
    d is Changed || d is Indeterminate
}

/// The telemetry label of an outcome.
pub open spec fn verdict_label(d: RegateDecision, proceed: bool) -> Seq<char> {
    match d {
        RegateDecision::Disabled => "disabled"@,
        RegateDecision::OverrideSkipped => "override_skipped"@,
        RegateDecision::NoChange => "no_change"@,
        RegateDecision::Changed => if proceed {
            "changed_pass"@
        } else {
            "changed_block"@
        },
        RegateDecision::Indeterminate => if proceed {
            "indeterminate_pass"@
        } else {
            "indeterminate_block"@
        },
    }
}

/// The view of an optional string slice.
pub open spec fn opt_view(o: Option<&str>) -> Option<Seq<char>> {
    match o {
        Some(s) => Some(s@),
        None => None,
    }
}

/// The view of an optional owned string.
pub open spec fn opt_string_view(o: Option<String>) -> Option<Seq<char>> {
    match o {
        Some(s) => Some(s@),
        None => None,
    }
}

/// Decides whether the quality groups run again. The diff after the review
/// is fetched only when it is needed.
pub fn decide_regate<F: FnOnce() -> Option<String>>(
    enabled: bool,
    override_active: bool,
    pre_diff: Option<&str>,
    fetch_post_diff: F,
) -> (d: RegateDecision)
    requires
        call_requires(fetch_post_diff, ()),
    ensures
        !needs_post_diff(enabled, override_active, opt_view(pre_diff)) ==> d == decision_for(
            enabled,
            override_active,
            opt_view(pre_diff),
            None,
        ),
        needs_post_diff(enabled, override_active, opt_view(pre_diff)) ==> exists|post: Option<String>|
            call_ensures(fetch_post_diff, (), post) && d == decision_for(
                enabled,
                override_active,
                opt_view(pre_diff),
                opt_string_view(post),
            ),
{
    if !enabled {
        return RegateDecision::Disabled;
    }
    if override_active {
        return RegateDecision::OverrideSkipped;
    }
    let pre = match pre_diff {
        None => {
            return RegateDecision::Indeterminate;
        },
        Some(p) => p,
    };
    let post = fetch_post_diff();
    let ghost gp = post;
    let d = match post {
        Some(q) => {
            let qv = chars_of(q.as_str());
            let pv = chars_of(pre);
            if chars_eq(&qv, &pv) {
                RegateDecision::NoChange
            } else {
                RegateDecision::Changed
            }
        },
        None => RegateDecision::Indeterminate,
    };
    assert(call_ensures(fetch_post_diff, (), gp));
    assert(d == decision_for(enabled, override_active, opt_view(pre_diff), opt_string_view(gp)));
    d
}

/// Whether the push may go on after the decision: without a re-run it
/// may; with one, when every quality group passed.
pub fn apply_regate_decision<R: FnOnce(Vec<&GroupConfig>, u64, bool) -> Vec<bool>>(
    decision: RegateDecision,
    quality_gate: &QualityGateConfig,
    run_groups: R,
) -> (b: bool)
    requires
        forall|gs: Vec<&GroupConfig>, t: u64, p: bool| call_requires(run_groups, (gs, t, p)),
    ensures
        !reruns_gate(decision) ==> b,
        reruns_gate(decision) ==> gate_verdict(*quality_gate, seq![], run_groups, b),
{
    match decision {
        RegateDecision::Disabled | RegateDecision::OverrideSkipped | RegateDecision::NoChange => {
            true
        },
        RegateDecision::Changed | RegateDecision::Indeterminate => {
            let none: Vec<String> = Vec::new();
            assert(crate::text::views(none@) == Seq::<Seq<char>>::empty());
            run_quality_gate(quality_gate, none.as_slice(), run_groups)
        },
    }
}

impl RegateOutcome {
    /// The telemetry label of the outcome (`no_change`, `changed_block`, ...).
    pub fn telemetry_verdict(&self) -> (r: &'static str)
        ensures
            r@ == verdict_label(self.decision, self.proceed),
    {
        match self.decision {
            RegateDecision::Disabled => "disabled",
            RegateDecision::OverrideSkipped => "override_skipped",
            RegateDecision::NoChange => "no_change",
            RegateDecision::Changed => if self.proceed {
                "changed_pass"
            } else {
                "changed_block"
            },
            RegateDecision::Indeterminate => if self.proceed {
                "indeterminate_pass"
            } else {
                "indeterminate_block"
            },
        }
    }
}

/// The re-run stage: on when the section turns it on; the kill-switch is
/// the override variable set to exactly `1`. `fetch_post_diff` takes the
/// diff after the review and `run_groups` runs quality groups.
pub fn run_post_takt_regate<
    F: FnOnce() -> Option<String>,
    R: FnOnce(Vec<&GroupConfig>, u64, bool) -> Vec<bool>,
>(
    regate: Option<&PostTaktRegateConfig>,
    quality_gate: &QualityGateConfig,
    override_raw: Option<&str>,
    pre_diff: Option<&str>,
    fetch_post_diff: F,
    run_groups: R,
) -> (o: RegateOutcome)
    requires
        call_requires(fetch_post_diff, ()),
        forall|gs: Vec<&GroupConfig>, t: u64, p: bool| call_requires(run_groups, (gs, t, p)),
    ensures
        ({
            let enabled = match regate {
                Some(c) => c.enabled == Some(true),
                None => false,
            };
            let overridden = opt_view(override_raw) == Some("1"@);
            &&& !needs_post_diff(enabled, overridden, opt_view(pre_diff)) ==> o.decision
                == decision_for(enabled, overridden, opt_view(pre_diff), None)
            &&& needs_post_diff(enabled, overridden, opt_view(pre_diff)) ==> exists|
                post: Option<String>,
            |
                call_ensures(fetch_post_diff, (), post) && o.decision == decision_for(
                    enabled,
                    overridden,
                    opt_view(pre_diff),
                    opt_string_view(post),
                )
        }),
        !reruns_gate(o.decision) ==> o.proceed,
        reruns_gate(o.decision) ==> gate_verdict(*quality_gate, seq![], run_groups, o.proceed),
{
    let enabled = match regate {
        Some(c) => c.is_enabled(),
        None => false,
    };
    let overridden = match override_raw {
        Some(v) => {
            let vv = chars_of(v);
            let one = chars_of("1");
            chars_eq(&vv, &one)
        },
        None => false,
    };
    let decision = decide_regate(enabled, overridden, pre_diff, fetch_post_diff);
    let proceed = apply_regate_decision(decision, quality_gate, run_groups);
    RegateOutcome { decision, proceed }
}

} // verus!
