//! `[takt]`: the review workflow run before a push.
use vstd::prelude::*;

verus! {

/// The `[takt]` section.
pub struct TaktConfig {
    /// The workflow run when no routing picks another.
    pub workflow: String,
    /// The task label given to the workflow.
    pub task: String,
    /// More arguments for `takt`.
    pub extra_args: Option<Vec<String>>,
}

} // verus!
