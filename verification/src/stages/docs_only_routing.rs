//! Docs-only routing: when every change of the PR range is documentation,
//! the heavy quality groups are skipped. What counts as documentation is
//! the docs policy's judgement of the `jj diff --summary` of the range; a
//! summary that cannot be had runs every group (fail-closed).
use vstd::prelude::*;

use crate::config::docs_only_routing::DocsOnlyRoutingConfig;
use crate::stages::scratch_file_warning::opt_views;
use crate::text::{chars_eq, chars_of, views};

verus! {

/// The routing verdict.
#[derive(Debug, PartialEq, Eq)]
pub enum RoutingDecision {
    /// The kill-switch is set: every group runs.
    OverrideForced,
    /// The summary could not be had: every group runs.
    SummaryUnavailable(String),
    /// The range changes code: every group runs.
    NotDocsOnly,
    /// The range is documentation only: these groups are skipped.
    DocsOnly(Vec<String>),
}

/// The groups skipped for a docs-only range.
pub open spec fn skip_list(config: DocsOnlyRoutingConfig) -> Seq<Seq<char>> {
    if opt_views(config.skip_groups).len() > 0 {
        opt_views(config.skip_groups)
    } else {
        seq!["rust-lint-test"@]
    }
}

/// The groups a verdict skips (none but for a docs-only range).
pub open spec fn skipped_by(d: RoutingDecision) -> Seq<Seq<char>> {
    match d {
        RoutingDecision::DocsOnly(v) => views(v@),
        _ => seq![],
    }
}

/// Decides the routing. The summary is fetched only without the
/// kill-switch, and the docs policy judges it only when it was had.
pub fn decide_routing<F: FnOnce() -> Result<String, String>, P: FnOnce(&str) -> bool>(
    config: &DocsOnlyRoutingConfig,
    override_active: bool,
    fetch_summary: F,
    is_docs_only: P,
) -> (d: RoutingDecision)
    requires
        call_requires(fetch_summary, ()),
        forall|s: &str| call_requires(is_docs_only, (s,)),
    ensures
        override_active ==> d is OverrideForced,
        !override_active ==> exists|s: Result<String, String>|
            call_ensures(fetch_summary, (), s) && match s {
                Err(e) => d == RoutingDecision::SummaryUnavailable(e),
                Ok(text) => exists|t: &str, docs: bool|
                    t@ == text@ && call_ensures(is_docs_only, (t,), docs) && if docs {
                        d matches RoutingDecision::DocsOnly(v) && views(v@) == skip_list(*config)
                    } else {
                        d is NotDocsOnly
                    },
            },
{
    if override_active {
        return RoutingDecision::OverrideForced;
    }
    let s = fetch_summary();
    let ghost gs = s;
    assert(call_ensures(fetch_summary, (), gs));
    match s {
        Err(e) => RoutingDecision::SummaryUnavailable(e),
        Ok(text) => {
            let t: &str = text.as_str();
            let docs = is_docs_only(t);
            assert(call_ensures(is_docs_only, (t,), docs));
            if docs {
                RoutingDecision::DocsOnly(config.effective_skip_groups())
            } else {
                RoutingDecision::NotDocsOnly
            }
        },
    }
}

/// The groups to skip for a verdict.
pub fn log_and_map(decision: RoutingDecision, revset: &str) -> (r: Vec<String>)
    ensures
        views(r@) == skipped_by(decision),
{
    match decision {
        RoutingDecision::DocsOnly(skip) => skip,
        _ => Vec::new(),
    }
}

/// The routing stage: off unless the section sets `enabled = true`; the
/// kill-switch is the override variable set to exactly `1`. The groups to
/// skip: when the stage is on and not overridden, the configured skip list
/// (`rust-lint-test` by default) for a summary the docs policy judges
/// docs-only, and none for a summary that could not be had or that changes
/// code.
pub fn run_docs_only_routing<F: FnOnce() -> Result<String, String>, P: FnOnce(&str) -> bool>(
    config: Option<&DocsOnlyRoutingConfig>,
    pr_range: &str,
    override_raw: Option<&str>,
    fetch_summary: F,
    is_docs_only: P,
) -> (r: Vec<String>)
    requires
        call_requires(fetch_summary, ()),
        forall|s: &str| call_requires(is_docs_only, (s,)),
    ensures
        (match config {
            Some(c) => c.enabled != Some(true),
            None => true,
        }) ==> r@.len() == 0,
        (match override_raw {
            Some(v) => v@ == "1"@,
            None => false,
        }) ==> r@.len() == 0,
        r@.len() > 0 ==> (config matches Some(c) && views(r@) == skip_list(*c)),
        match config {
            Some(c) => c.enabled == Some(true) && !(match override_raw {
                Some(v) => v@ == "1"@,
                None => false,
            }) ==> exists|s: Result<String, String>|
                #[trigger] call_ensures(fetch_summary, (), s) && match s {
                    Err(_) => r@.len() == 0,
                    Ok(text) => exists|t: &str, docs: bool|
                        t@ == text@ && #[trigger] call_ensures(is_docs_only, (t,), docs) && if docs {
                            views(r@) == skip_list(*c)
                        } else {
                            r@.len() == 0
                        },
                },
            None => true,
        },
{
    let c = match config {
        None => {
            return Vec::new();
        },
        Some(c) => c,
    };
    if c.enabled != Some(true) {
        return Vec::new();
    }
    let overridden = match override_raw {
        Some(v) => {
            let vv = chars_of(v);
            let one = chars_of("1");
            chars_eq(&vv, &one)
        },
        None => false,
    };
    let decision = decide_routing(c, overridden, fetch_summary, is_docs_only);
    let ghost gd = decision;
    let r = log_and_map(decision, pr_range);
    proof {
        assert(views(r@).len() == r@.len());
        if r@.len() > 0 {
            assert(gd is DocsOnly);
        }
    }
    r
}

} // verus!
