//! `[lint_screen]`: an advisory screen of the diff by a local model, and the
//! `LINT_SCREEN_ENABLED` variable that can turn it on over the file.
use vstd::prelude::*;

use crate::stages::scratch_file_warning::is_truthy;
use crate::text::{chars_eq, chars_of, lower, lower_span, trim, trim_span};

verus! {

/// Seconds the classifier may run.
pub const DEFAULT_LINT_SCREEN_TIMEOUT_SECS: u64 = 60;

/// Diffs longer than this many lines are not screened.
pub const DEFAULT_LINT_SCREEN_MAX_DIFF_LINES: usize = 5000;

/// The model asked.
pub const DEFAULT_LINT_SCREEN_MODEL: &'static str = "mistral:7b";

/// Where the model is served.
pub const DEFAULT_LINT_SCREEN_ENDPOINT: &'static str = "http://localhost:11434";

/// Where the report is written.
pub const DEFAULT_LINT_SCREEN_OUTPUT_PATH: &'static str = ".takt/lint-screen-report.md";

/// The variable that can force the screen on.
pub const ENV_LINT_SCREEN_ENABLED: &'static str = "LINT_SCREEN_ENABLED";

/// The `[lint_screen]` section. `exe_path` names the classifier; without
/// it the screen is skipped.
pub struct LintScreenConfig {
    pub enabled: bool,
    pub exe_path: Option<String>,
    pub model: Option<String>,
    pub endpoint: Option<String>,
    pub timeout_secs: Option<u64>,
    pub max_diff_lines: Option<usize>,
    pub output_path: Option<String>,
}

/// What the variable asks for.
#[derive(Debug, PartialEq, Eq)]
pub enum LintScreenEnvOverride {
    /// Turn the screen on, whatever the file says.
    ForceEnable,
    /// Do what the file says.
    RespectToml,
    /// A value that is not a boolean; the file is respected.
    InvalidValue,
}

/// A value that means "no" (or nothing).
pub open spec fn is_falsy(v: Seq<char>) -> bool {
    v == "false"@ || v == "0"@ || v == "no"@ || v == "off"@ || v.len() == 0
}

/// What a value of the variable asks for, trimmed and in ASCII lowercase.
pub open spec fn env_override_of(raw: Option<Seq<char>>) -> LintScreenEnvOverride {
    match raw {
        None => LintScreenEnvOverride::RespectToml,
        Some(v) => if is_truthy(lower(trim(v))) {
            LintScreenEnvOverride::ForceEnable
        } else if is_falsy(lower(trim(v))) {
            LintScreenEnvOverride::RespectToml
        } else {
            LintScreenEnvOverride::InvalidValue
        },
    }
}

/// The view of an optional string slice.
pub open spec fn opt_str_view(raw: Option<&str>) -> Option<Seq<char>> {
    match raw {
        Some(v) => Some(v@),
        None => None,
    }
}

/// What the variable's value asks for: `true`/`1`/`yes`/`on` force the
/// screen on; `false`/`0`/`no`/`off`/empty and an unset variable leave the
/// file's setting; anything else is invalid (and leaves the file's setting).
pub fn parse_lint_screen_env(raw: Option<&str>) -> (r: LintScreenEnvOverride)
    ensures
        r == env_override_of(opt_str_view(raw)),
{
    let value = match raw {
        None => {
            return LintScreenEnvOverride::RespectToml;
        },
        Some(v) => v,
    };
    let v = chars_of(value);
    assert(v@.subrange(0, v@.len() as int) == v@);
    let (a, b) = trim_span(&v, 0, v.len());
    let n = lower_span(&v, a, b);
    let t1 = chars_of("true");
    let t2 = chars_of("1");
    let t3 = chars_of("yes");
    let t4 = chars_of("on");
    if chars_eq(&n, &t1) || chars_eq(&n, &t2) || chars_eq(&n, &t3) || chars_eq(&n, &t4) {
        return LintScreenEnvOverride::ForceEnable;
    }
    let f1 = chars_of("false");
    let f2 = chars_of("0");
    let f3 = chars_of("no");
    let f4 = chars_of("off");
    if chars_eq(&n, &f1) || chars_eq(&n, &f2) || chars_eq(&n, &f3) || chars_eq(&n, &f4) || n.len()
        == 0 {
        return LintScreenEnvOverride::RespectToml;
    }
    LintScreenEnvOverride::InvalidValue
}

/// The section the variable creates when the file has none: on, with every
/// other setting at its default.
pub fn default_lint_screen_enabled() -> (c: LintScreenConfig)
    ensures
        c.enabled,
        c.exe_path is None,
        c.model is None,
        c.endpoint is None,
        c.timeout_secs is None,
        c.max_diff_lines is None,
        c.output_path is None,
{
    LintScreenConfig {
        enabled: true,
        exe_path: None,
        model: None,
        endpoint: None,
        timeout_secs: None,
        max_diff_lines: None,
        output_path: None,
    }
}

} // verus!
