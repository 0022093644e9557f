//! `[ledger_completion]`: check that the ledger entries a push declares done
//! were really changed.
use vstd::prelude::*;

verus! {

/// The `[ledger_completion]` section. The stage runs only when `enabled` is
/// `Some(true)`; `exe` names the ledger checker and `ledger` the ledger file.
pub struct LedgerCompletionConfig {
    pub enabled: Option<bool>,
    pub exe: Option<String>,
    pub ledger: Option<String>,
}

} // verus!
