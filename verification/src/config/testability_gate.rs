//! `[testability_gate]`: flag changed code that mixes I/O into logic.
use vstd::prelude::*;

use crate::text::{append_str, chars_eq, chars_of, concat_str, string_of};

verus! {

/// The mode when the section names none.
pub const DEFAULT_TESTABILITY_GATE_MODE: &'static str = "warning";

/// The `[testability_gate]` section: `mode` is `warning` or `deny`.
pub struct TestabilityGateConfig {
    pub enabled: Option<bool>,
    pub mode: Option<String>,
}

/// A mode the section accepts.
pub open spec fn is_known_mode(m: Seq<char>) -> bool {
    m == "warning"@ || m == "deny"@
}

/// The message for an unknown mode.
pub open spec fn unknown_mode_message(m: Seq<char>) -> Seq<char> {
    "設定ファイルエラー: [testability_gate] mode は warning / deny のいずれか (got: "@ + m + ")"@
}

/// Accepts an absent section, an absent mode and the known modes; any
/// other mode is a configuration error that names it.
pub fn validate_testability_gate_mode(config: Option<&TestabilityGateConfig>) -> (r: Result<
    (),
    String,
>)
    ensures
        match config {
            Some(c) => match c.mode {
                Some(m) => if is_known_mode(m@) {
                    r is Ok
                } else {
                    r matches Err(e) && e@ == unknown_mode_message(m@)
                },
                None => r is Ok,
            },
            None => r is Ok,
        },
{
    let mode = match config {
        Some(c) => match &c.mode {
            Some(m) => m,
            None => {
                return Ok(());
            },
        },
        None => {
            return Ok(());
        },
    };
    let mv = chars_of(mode.as_str());
    let w = chars_of("warning");
    let d = chars_of("deny");
    if chars_eq(&mv, &w) || chars_eq(&mv, &d) {
        return Ok(());
    }
    let mut out = chars_of(
        "設定ファイルエラー: [testability_gate] mode は warning / deny のいずれか (got: ",
    );
    append_str(&mut out, mode.as_str());
    append_str(&mut out, ")");
    Err(string_of(&out))
}

} // verus!
