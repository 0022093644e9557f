//! `[open_questions_gate]`: stop a push while written design questions are open.
use vstd::prelude::*;

verus! {

/// The `[open_questions_gate]` section. Only `enabled = false` stops the check from running.
pub struct OpenQuestionsGateConfig {
    pub enabled: Option<bool>,
}

} // verus!
