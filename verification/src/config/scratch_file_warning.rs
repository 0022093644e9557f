//! `[scratch_file_warning]`: keep scratch files out of the pushed commit.
use vstd::prelude::*;

verus! {

/// The `[scratch_file_warning]` section. The check runs only when `enabled`
/// is `Some(true)`; `patterns` replaces the default `__*` name pattern, and
/// `root_script_allowlist` names root-level scripts that are allowed.
pub struct ScratchFileWarningConfig {
    pub enabled: Option<bool>,
    pub patterns: Option<Vec<String>>,
    pub root_script_allowlist: Option<Vec<String>>,
}

} // verus!
