//! `[takt_verdict_gate]`: stop a push whose review did not approve. On by
//! default; `enabled = false` turns it off for good.
use vstd::prelude::*;

verus! {

/// The `[takt_verdict_gate]` section.
pub struct TaktVerdictGateConfig {
    pub enabled: Option<bool>,
}

} // verus!
