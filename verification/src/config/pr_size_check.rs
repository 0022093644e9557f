//! `[pr_size_check]`: warn about, then block, a pull request that grows too large.
use vstd::prelude::*;

verus! {

/// Changed lines (insertions plus deletions) above which the push is warned about.
pub const DEFAULT_PR_SIZE_WARNING_THRESHOLD: usize = 800;

/// Changed lines above which the push is blocked.
pub const DEFAULT_PR_SIZE_BLOCK_THRESHOLD: usize = 1500;

/// The `[pr_size_check]` section. The check runs only when `enabled` is
/// `Some(true)`; the others default to `master`, the warning and the block
/// threshold above.
pub struct PrSizeCheckConfig {
    pub enabled: Option<bool>,
    pub default_branch: Option<String>,
    pub warning_threshold: Option<usize>,
    pub block_threshold: Option<usize>,
}

} // verus!
