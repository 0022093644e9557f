//! `[quality_gate]`: the command groups that must pass before a push.
use vstd::prelude::*;

verus! {

/// Seconds a quality-gate step may run when the section does not say.
pub const DEFAULT_STEP_TIMEOUT_SECS: u64 = 120;

/// The `[quality_gate]` section.
pub struct QualityGateConfig {
    /// Run the groups in parallel (the default) or one after another.
    pub parallel: Option<bool>,
    /// Seconds each step may run.
    pub step_timeout: Option<u64>,
    pub groups: Vec<GroupConfig>,
}

/// A named group of commands, with an optional command run before them.
pub struct GroupConfig {
    pub name: String,
    pub pre: Option<String>,
    pub commands: Vec<String>,
}

} // verus!
