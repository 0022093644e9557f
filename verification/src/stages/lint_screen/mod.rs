//! The lint-screen stage: an advisory first pass of a local model over the
//! diff. It never gates the push: whatever goes wrong is a skip. This
//! module decides what the stage does with a diff: nothing, a skip with a
//! reason, the docs-only skip report, or a call of the classifier on the
//! preprocessed diff.
pub mod diff_filter;
pub mod report;

use vstd::prelude::*;

use crate::config::lint_screen::{
    LintScreenConfig, DEFAULT_LINT_SCREEN_ENDPOINT, DEFAULT_LINT_SCREEN_MAX_DIFF_LINES,
    DEFAULT_LINT_SCREEN_MODEL, DEFAULT_LINT_SCREEN_OUTPUT_PATH, DEFAULT_LINT_SCREEN_TIMEOUT_SECS,
};
use crate::text::{
    append_all, append_str, chars_of, concat, decimal, decimal_of, line_spans, lines, owned,
    string_of, trim, trim_span, trim_string,
};
use diff_filter::{
    file_diffs, filter_excluded_hunks, kept_chunks, strip_diff_metadata_lines, stripped_diff,
    FilterResult,
};

verus! {

/// How the classifier is started: without an executable the screen is
/// skipped.
pub struct InvokeParams {
    pub exe: Option<String>,
    pub model: String,
    pub endpoint: String,
    pub timeout_secs: u64,
}

/// What the stage does with the diff.
pub enum LintScreenPlan {
    /// The stage is off.
    Disabled,
    /// Skipped, for the reason given.
    Skip(String),
    /// Every file diff was docs-only: the skip report goes to this path.
    SkipReport(String),
    /// Ask the classifier about `diff` and write its report to `output_path`.
    Classify { params: InvokeParams, output_path: String, diff: String },
}

// ---------------------------------------------------------------------------
// Specifications
// ---------------------------------------------------------------------------

/// The value of an optional string, or `d`.
pub open spec fn str_or(o: Option<String>, d: Seq<char>) -> Seq<char> {
    match o {
        Some(s) => s@,
        None => d,
    }
}

/// The line limit in force.
pub open spec fn max_lines_in_force(config: LintScreenConfig) -> usize {
    match config.max_diff_lines {
        Some(n) => n,
        None => DEFAULT_LINT_SCREEN_MAX_DIFF_LINES,
    }
}

/// Why a diff is not screened, if it is not: too many lines, or nothing
/// but whitespace.
pub open spec fn diff_rejection(raw: Seq<char>, max: usize) -> Option<Seq<char>> {
    if lines(raw).len() > max {
        Some("diff 過大 ("@ + decimal(lines(raw).len()) + " 行 > 上限 "@ + decimal(max as nat) + ")"@)
    } else if trim(raw).len() == 0 {
        Some("diff が空"@)
    } else {
        None
    }
}

/// What the docs-only filter leaves of a diff: `None` when every file diff
/// was dropped.
pub open spec fn filtered_diff(raw: Seq<char>) -> Option<Seq<char>> {
    if file_diffs(raw).len() == 0 {
        Some(raw)
    } else if kept_chunks(file_diffs(raw)).len() == 0 {
        None
    } else {
        Some(concat(kept_chunks(file_diffs(raw))))
    }
}

/// The parameters resolved from a configuration.
pub open spec fn params_of(config: LintScreenConfig, p: InvokeParams) -> bool {
    &&& match config.exe_path {
        Some(e) => p.exe matches Some(x) && x@ == e@,
        None => p.exe is None,
    }
    &&& p.model@ == str_or(config.model, DEFAULT_LINT_SCREEN_MODEL@)
    &&& p.endpoint@ == str_or(config.endpoint, DEFAULT_LINT_SCREEN_ENDPOINT@)
    &&& p.timeout_secs == match config.timeout_secs {
        Some(t) => t,
        None => DEFAULT_LINT_SCREEN_TIMEOUT_SECS,
    }
}

/// The plan for an enabled stage and the outcome of reading the diff.
pub open spec fn plan_of(config: LintScreenConfig, read: Result<String, String>, plan: LintScreenPlan) -> bool {
    let out = str_or(config.output_path, DEFAULT_LINT_SCREEN_OUTPUT_PATH@);
    match read {
        Err(e) => plan matches LintScreenPlan::Skip(r) && r@ == e@,
        Ok(raw) => match diff_rejection(raw@, max_lines_in_force(config)) {
            Some(reason) => plan matches LintScreenPlan::Skip(r) && r@ == reason,
            None => match filtered_diff(raw@) {
                None => plan matches LintScreenPlan::SkipReport(p) && p@ == out,
                Some(f) => plan matches LintScreenPlan::Classify { params, output_path, diff }
                    && params_of(config, params) && output_path@ == out && diff@ == stripped_diff(
                    f,
                ),
            },
        },
    }
}

// ---------------------------------------------------------------------------
// Executable functions
// ---------------------------------------------------------------------------

/// The classifier's parameters: the configured values, else the defaults.
pub fn resolve_invoke_params(config: &LintScreenConfig) -> (p: InvokeParams)
    ensures
        params_of(*config, p),
{
    let exe = match &config.exe_path {
        Some(e) => Some(owned(e.as_str())),
        None => None,
    };
    let model = match &config.model {
        Some(m) => owned(m.as_str()),
        None => owned(DEFAULT_LINT_SCREEN_MODEL),
    };
    let endpoint = match &config.endpoint {
        Some(e) => owned(e.as_str()),
        None => owned(DEFAULT_LINT_SCREEN_ENDPOINT),
    };
    let timeout_secs = match config.timeout_secs {
        Some(t) => t,
        None => DEFAULT_LINT_SCREEN_TIMEOUT_SECS,
    };
    InvokeParams { exe, model, endpoint, timeout_secs }
}

/// Appends the decimal numeral of `n`.
fn append_decimal(out: &mut Vec<char>, n: u64)
    ensures
        final(out)@ == old(out)@ + decimal(n as nat),
{
    let d = decimal_of(n);
    let ghost before = out@;
    let mut i: usize = 0;
    while i < d.len()
        invariant
            i <= d@.len(),
            out@ == before + d@.subrange(0, i as int),
        decreases d@.len() - i,
    {
        out.push(d[i]);
        assert(d@.subrange(0, i + 1) == d@.subrange(0, i as int).push(d@[i as int]));
        i += 1;
    }
    assert(d@.subrange(0, d@.len() as int) == d@);
}

/// The diff as read, unless it has more lines than the limit or is blank.
pub fn validate_diff(raw: String, config: &LintScreenConfig) -> (r: Result<String, String>)
    ensures
        match diff_rejection(raw@, max_lines_in_force(*config)) {
            Some(reason) => r matches Err(e) && e@ == reason,
            None => r matches Ok(d) && d@ == raw@,
        },
{
    let max_lines = match config.max_diff_lines {
        Some(n) => n,
        None => DEFAULT_LINT_SCREEN_MAX_DIFF_LINES,
    };
    let v = chars_of(raw.as_str());
    let spans = line_spans(&v);
    let count = spans.len();
    if count > max_lines {
        let mut out = chars_of("diff 過大 (");
        append_decimal(&mut out, count as u64);
        append_str(&mut out, " 行 > 上限 ");
        append_decimal(&mut out, max_lines as u64);
        append_str(&mut out, ")");
        return Err(string_of(&out));
    }
    let (a, b) = trim_span(&v, 0, v.len());
    assert(v@.subrange(0, v@.len() as int) == v@);
    if a == b {
        return Err(owned("diff が空"));
    }
    Ok(raw)
}

/// What an enabled stage does with the outcome of reading the diff: an
/// error or a rejected diff is a skip with its reason; docs-only file
/// diffs are dropped, and when none is left the skip report is written;
/// else metadata lines are stripped and the classifier is asked.
pub fn plan_for_diff(config: &LintScreenConfig, got: Result<String, String>) -> (plan: LintScreenPlan)
    ensures
        plan_of(*config, got, plan),
{
    let raw = match got {
        Err(e) => {
            return LintScreenPlan::Skip(e);
        },
        Ok(raw) => raw,
    };
    let raw = match validate_diff(raw, config) {
        Err(reason) => {
            return LintScreenPlan::Skip(reason);
        },
        Ok(raw) => raw,
    };
    let output_path = match &config.output_path {
        Some(p) => owned(p.as_str()),
        None => owned(DEFAULT_LINT_SCREEN_OUTPUT_PATH),
    };
    let filtered = match filter_excluded_hunks(raw.as_str()) {
        FilterResult::AllExcluded => {
            return LintScreenPlan::SkipReport(output_path);
        },
        FilterResult::Kept(f) => f,
    };
    let diff = strip_diff_metadata_lines(filtered.as_str());
    let params = resolve_invoke_params(config);
    LintScreenPlan::Classify { params, output_path, diff }
}

/// Decides what the stage does: nothing when it is off; else the diff at
/// `diff_path` is read through `read` and planned by `plan_for_diff`.
pub fn plan_lint_screen<F: FnOnce(&str) -> Result<String, String>>(
    config: &LintScreenConfig,
    diff_path: &str,
    read: F,
) -> (plan: LintScreenPlan)
    requires
        call_requires(read, (diff_path,)),
    ensures
        !config.enabled ==> plan is Disabled,
        config.enabled ==> exists|got: Result<String, String>|
            call_ensures(read, (diff_path,), got) && plan_of(*config, got, plan),
{
    if !config.enabled {
        return LintScreenPlan::Disabled;
    }
    let got = read(diff_path);
    let ghost got_g = got;
    assert(call_ensures(read, (diff_path,), got_g));
    let plan = plan_for_diff(config, got);
    assert(plan_of(*config, got_g, plan));
    plan
}

/// What the classifier's end means: `exit` is `None` when it ran past its
/// time (`timeout_secs` and a grace of five seconds), else whether it
/// exited with success.
pub open spec fn exit_verdict(
    exit: Option<bool>,
    timeout_secs: u64,
    stdout: Seq<char>,
    stderr: Seq<char>,
) -> Result<(), Seq<char>> {
    match exit {
        None => Err("timeout ("@ + decimal((timeout_secs + 5) as nat) + "s)"@),
        Some(false) => Err("非 0 終了: "@ + stderr),
        Some(true) => if trim(stdout).len() == 0 {
            Err("stdout 空"@)
        } else {
            Ok(())
        },
    }
}

/// The classifier's output (stdout, stderr) once it has ended, or why
/// there is none: a timeout, a failing exit, or an empty stdout.
pub fn classify_exit(exit: Option<bool>, timeout_secs: u64, stdout: String, stderr: String) -> (r:
    Result<(String, String), String>)
    requires
        timeout_secs <= u64::MAX - 5,
    ensures
        match exit_verdict(exit, timeout_secs, stdout@, stderr@) {
            Ok(()) => r matches Ok(o) && o.0@ == stdout@ && o.1@ == stderr@,
            Err(m) => r matches Err(e) && e@ == m,
        },
{
    match exit {
        None => {
            let mut out = chars_of("timeout (");
            let n = decimal_of(timeout_secs + 5);
            append_all(&mut out, n.as_slice());
            append_str(&mut out, "s)");
            Err(string_of(&out))
        },
        Some(false) => {
            let mut out = chars_of("非 0 終了: ");
            append_str(&mut out, stderr.as_str());
            Err(string_of(&out))
        },
        Some(true) => {
            let t = trim_string(stdout.as_str());
            let tv = chars_of(t.as_str());
            if tv.len() == 0 {
                Err(owned("stdout 空"))
            } else {
                Ok((stdout, stderr))
            }
        },
    }
}

} // verus!
