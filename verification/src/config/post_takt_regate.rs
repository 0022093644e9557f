//! `[post_takt_regate]`: run the quality groups again when the review's
//! automatic fixes changed the working copy.
use vstd::prelude::*;

verus! {

/// The `[post_takt_regate]` section; the re-run is opt-in.
pub struct PostTaktRegateConfig {
    pub enabled: Option<bool>,
}

impl PostTaktRegateConfig {
    /// Whether the re-run is turned on (`enabled = true`).
    pub fn is_enabled(&self) -> (b: bool)
        ensures
            b == (self.enabled == Some(true)),
    {
        match self.enabled {
            Some(e) => e,
            None => false,
        }
    }
}

} // verus!
