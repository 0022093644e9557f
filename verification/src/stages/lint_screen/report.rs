//! The markdown report of the lint screen: the classifier's answer (or the
//! reason it could not be read) rendered as a summary, a findings table and
//! the classifier's diagnostics; and the report written when the diff was
//! skipped as docs-only.
use vstd::prelude::*;

use crate::text::{append_str, chars_of, decimal, decimal_of, string_of, trim, trim_span};

verus! {

/// The opening of every report.
pub const REPORT_PREAMBLE: &'static str = "# Lint Screen Report (mistral:7b, Phase b' agreement 75%)\n\n\
> **試験運用**: 本 report は ADR-038 Phase c lint screen facet による mistral:7b の AI 所見。\n\
> agreement 75% (conditional GO) のため誤指摘あり。レビュアーが独立判断する前提で参考情報として扱う。\n\n";

/// One finding of the classifier. A field is `None` where the classifier's
/// JSON had no string there; `line` holds the JSON text of the value.
pub struct LintFinding {
    pub severity: Option<String>,
    pub rule: Option<String>,
    pub file: Option<String>,
    pub line: Option<String>,
    pub issue: Option<String>,
    pub suggestion: Option<String>,
}

/// The classifier's answer: the decision and fallback reason where they
/// are strings, and the findings (none when the list is absent).
pub struct ClassifierReport {
    pub screen_decision: Option<String>,
    pub fallback_reason: Option<String>,
    pub lint_findings: Vec<LintFinding>,
}

// ---------------------------------------------------------------------------
// Specifications
// ---------------------------------------------------------------------------

/// How a character is written in a table cell.
pub open spec fn sanitize_char(c: char) -> Seq<char> {
    if c == '|' {
        seq!['\\', '|']
    } else if c == '\n' {
        seq![' ']
    } else {
        seq![c]
    }
}

/// `s` with `|` escaped and newlines written as spaces.
pub open spec fn sanitized(s: Seq<char>) -> Seq<char>
    decreases s.len(),
{
    if s.len() == 0 {
        seq![]
    } else {
        sanitized(s.drop_last()) + sanitize_char(s.last())
    }
}

/// The value of an optional string, or `d`.
pub open spec fn or_default(o: Option<String>, d: Seq<char>) -> Seq<char> {
    match o {
        Some(s) => s@,
        None => d,
    }
}

/// A table cell.
pub open spec fn cell(o: Option<String>, d: Seq<char>) -> Seq<char> {
    sanitized(or_default(o, d))
}

/// The table row of a finding.
pub open spec fn row_text(f: LintFinding) -> Seq<char> {
    "| "@ + cell(f.severity, "?"@) + " | "@ + cell(f.rule, "?"@) + " | "@ + cell(f.file, "?"@)
        + " | "@ + cell(f.line, "?"@) + " | "@ + cell(f.issue, ""@) + " | "@ + cell(
        f.suggestion,
        ""@,
    ) + " |\n"@
}

/// The rows of the findings, in order.
pub open spec fn rows_text(fs: Seq<LintFinding>) -> Seq<char>
    decreases fs.len(),
{
    if fs.len() == 0 {
        seq![]
    } else {
        rows_text(fs.drop_last()) + row_text(fs.last())
    }
}

/// The findings section.
pub open spec fn table_text(fs: Seq<LintFinding>) -> Seq<char> {
    if fs.len() == 0 {
        "## Findings\n\n(なし)\n"@
    } else {
        "## Findings\n\n| severity | rule | file | line | issue | suggestion |\n"@
            + "|---|---|---|---|---|---|\n"@ + rows_text(fs)
    }
}

/// The summary section.
pub open spec fn summary_text(decision: Seq<char>, count: nat, fallback: Seq<char>) -> Seq<char> {
    "## Summary\n\n- screen_decision: `"@ + decision + "`\n- findings: "@ + decimal(count) + "\n"@
        + (if fallback.len() == 0 {
        seq![]
    } else {
        "- fallback_reason: `"@ + fallback + "`\n"@
    }) + "\n"@
}

/// The diagnostic section: the trimmed stderr of the classifier, or
/// nothing when it is blank.
pub open spec fn diagnostic_text(stderr: Seq<char>) -> Seq<char> {
    let t = trim(stderr);
    if t.len() == 0 {
        seq![]
    } else {
        "\n## Diagnostic\n\n"@
            + "classifier exe からの stderr 出力 (Phase A 順位 98 の num_ctx overflow 診断 log 等):\n\n"@
            + "```text\n"@ + t + "\n```\n"@
    }
}

/// The report for an answer that is not JSON: the error and the raw text.
pub open spec fn parse_error_text(error: Seq<char>, raw: Seq<char>) -> Seq<char> {
    REPORT_PREAMBLE@ + "## JSON parse 失敗\n\nerror: "@ + error + "\n\n"@ + "```\n"@ + raw
        + "\n```\n"@
}

/// The whole report.
pub open spec fn report_text(
    parsed: Result<ClassifierReport, String>,
    raw: Seq<char>,
    stderr: Seq<char>,
) -> Seq<char> {
    match parsed {
        Err(e) => parse_error_text(e@, raw) + diagnostic_text(stderr),
        Ok(r) => REPORT_PREAMBLE@ + summary_text(
            or_default(r.screen_decision, "?"@),
            r.lint_findings@.len(),
            or_default(r.fallback_reason, ""@),
        ) + table_text(r.lint_findings@) + diagnostic_text(stderr),
    }
}

/// The report written when the diff was docs-only.
pub open spec fn skip_report_text() -> Seq<char> {
    REPORT_PREAMBLE@ + "## Summary\n\n- screen_decision: `skipped`\n- 理由: docs-only diff のため lint_screen はスキップしました "@
        + "(`.md` / `.markdown` 拡張子のみで Rust hallucinate FP を構造的に防止、Bundle k 順位 123 / ADR-038)\n\n"@
        + "## Findings\n\n(なし)\n"@
}

// ---------------------------------------------------------------------------
// Executable functions
// ---------------------------------------------------------------------------

/// Appends `s` written for a table cell.
fn append_sanitized(out: &mut Vec<char>, s: &str)
    ensures
        final(out)@ == old(out)@ + sanitized(s@),
{
    let v = chars_of(s);
    let ghost start = out@;
    let mut i: usize = 0;
    while i < v.len()
        invariant
            i <= v@.len(),
            v@ == s@,
            out@ == start + sanitized(v@.subrange(0, i as int)),
        decreases v@.len() - i,
    {
        let c = v[i];
        let ghost before = out@;
        if c == '|' {
            out.push('\\');
            out.push('|');
        } else if c == '\n' {
            out.push(' ');
        } else {
            out.push(c);
        }
        proof {
            assert(v@.subrange(0, i + 1).drop_last() == v@.subrange(0, i as int));
            assert(out@ == before + sanitize_char(c));
        }
        i += 1;
    }
    assert(v@.subrange(0, v@.len() as int) == v@);
}

/// `s` with `|` escaped as `\|` and newlines written as spaces, for a
/// markdown table cell.
pub fn sanitize_cell(s: &str) -> (r: String)
    ensures
        r@ == sanitized(s@),
{
    let mut out: Vec<char> = Vec::new();
    append_sanitized(&mut out, s);
    string_of(&out)
}

/// Appends a cell: the value, or `d` when there is none.
fn append_cell(out: &mut Vec<char>, o: &Option<String>, d: &str)
    ensures
        final(out)@ == old(out)@ + cell(*o, d@),
{
    match o {
        Some(s) => append_sanitized(out, s.as_str()),
        None => append_sanitized(out, d),
    }
}

/// The table row of a finding.
fn render_row(out: &mut Vec<char>, f: &LintFinding)
    ensures
        final(out)@ == old(out)@ + row_text(*f),
{
    append_str(out, "| ");
    append_cell(out, &f.severity, "?");
    append_str(out, " | ");
    append_cell(out, &f.rule, "?");
    append_str(out, " | ");
    append_cell(out, &f.file, "?");
    append_str(out, " | ");
    append_cell(out, &f.line, "?");
    append_str(out, " | ");
    append_cell(out, &f.issue, "");
    append_str(out, " | ");
    append_cell(out, &f.suggestion, "");
    append_str(out, " |\n");
}

/// The findings section: a table with one row per finding, or `(なし)`.
pub fn render_findings_table(findings: &[LintFinding]) -> (r: String)
    ensures
        r@ == table_text(findings@),
{
    if findings.len() == 0 {
        let e = chars_of("## Findings\n\n(なし)\n");
        return string_of(&e);
    }
    let mut out = chars_of("## Findings\n\n| severity | rule | file | line | issue | suggestion |\n");
    append_str(&mut out, "|---|---|---|---|---|---|\n");
    let ghost head = out@;
    let mut k: usize = 0;
    while k < findings.len()
        invariant
            k <= findings@.len(),
            out@ == head + rows_text(findings@.subrange(0, k as int)),
        decreases findings@.len() - k,
    {
        render_row(&mut out, &findings[k]);
        assert(findings@.subrange(0, k + 1).drop_last() == findings@.subrange(0, k as int));
        k += 1;
    }
    assert(findings@.subrange(0, findings@.len() as int) == findings@);
    string_of(&out)
}

/// The summary section: the decision, the number of findings and, when
/// there is one, the fallback reason.
pub fn render_summary(decision: &str, findings_count: usize, fallback_reason: &str) -> (r: String)
    ensures
        r@ == summary_text(decision@, findings_count as nat, fallback_reason@),
{
    let mut out = chars_of("## Summary\n\n- screen_decision: `");
    append_str(&mut out, decision);
    append_str(&mut out, "`\n- findings: ");
    let d = decimal_of(findings_count as u64);
    let ghost before = out@;
    let mut i: usize = 0;
    while i < d.len()
        invariant
            i <= d@.len(),
            out@ == before + d@.subrange(0, i as int),
        decreases d@.len() - i,
    {
        out.push(d[i]);
        assert(d@.subrange(0, i + 1) == d@.subrange(0, i as int).push(d@[i as int]));
        i += 1;
    }
    assert(d@.subrange(0, d@.len() as int) == d@);
    append_str(&mut out, "\n");
    if !fallback_reason.is_empty() {
        append_str(&mut out, "- fallback_reason: `");
        append_str(&mut out, fallback_reason);
        append_str(&mut out, "`\n");
    }
    append_str(&mut out, "\n");
    string_of(&out)
}

/// The diagnostic section for the classifier's stderr: nothing when it is
/// blank, else the trimmed text in a code block.
pub fn render_diagnostic(stderr: &str) -> (r: String)
    ensures
        r@ == diagnostic_text(stderr@),
{
    let v = chars_of(stderr);
    let (a, b) = trim_span(&v, 0, v.len());
    assert(v@.subrange(0, v@.len() as int) == v@);
    if a == b {
        return String::new();
    }
    let mut out = chars_of("\n## Diagnostic\n\n");
    append_str(
        &mut out,
        "classifier exe からの stderr 出力 (Phase A 順位 98 の num_ctx overflow 診断 log 等):\n\n",
    );
    append_str(&mut out, "```text\n");
    let ghost before = out@;
    let mut i: usize = a;
    while i < b
        invariant
            a <= i <= b <= v@.len(),
            out@ == before + v@.subrange(a as int, i as int),
        decreases b - i,
    {
        out.push(v[i]);
        assert(v@.subrange(a as int, i + 1) == v@.subrange(a as int, i as int).push(v@[i as int]));
        i += 1;
    }
    append_str(&mut out, "\n```\n");
    string_of(&out)
}

/// The report for an answer that could not be read as JSON.
pub fn render_parse_error(error: &str, raw: &str) -> (r: String)
    ensures
        r@ == parse_error_text(error@, raw@),
{
    let mut out = chars_of(REPORT_PREAMBLE);
    append_str(&mut out, "## JSON parse 失敗\n\nerror: ");
    append_str(&mut out, error);
    append_str(&mut out, "\n\n");
    append_str(&mut out, "```\n");
    append_str(&mut out, raw);
    append_str(&mut out, "\n```\n");
    string_of(&out)
}

/// The report for the classifier's answer: `parsed` is the answer read as
/// JSON, or the reason it could not be; `raw` the answer's text and
/// `stderr` what the classifier wrote there.
pub fn format_report(parsed: &Result<ClassifierReport, String>, raw: &str, stderr: &str) -> (r:
    String)
    ensures
        r@ == report_text(*parsed, raw@, stderr@),
{
    let diag = render_diagnostic(stderr);
    match parsed {
        Err(e) => {
            let head = render_parse_error(e.as_str(), raw);
            let mut out = chars_of(head.as_str());
            append_str(&mut out, diag.as_str());
            string_of(&out)
        },
        Ok(report) => {
            let decision: &str = match &report.screen_decision {
                Some(d) => d.as_str(),
                None => "?",
            };
            let fallback: &str = match &report.fallback_reason {
                Some(f) => f.as_str(),
                None => "",
            };
            let summary = render_summary(decision, report.lint_findings.len(), fallback);
            let table = render_findings_table(report.lint_findings.as_slice());
            let mut out = chars_of(REPORT_PREAMBLE);
            append_str(&mut out, summary.as_str());
            append_str(&mut out, table.as_str());
            append_str(&mut out, diag.as_str());
            string_of(&out)
        },
    }
}

/// The report written when every file diff was docs-only and the
/// classifier was not asked.
pub fn skip_report_body() -> (r: String)
    ensures
        r@ == skip_report_text(),
{
    let mut out = chars_of(REPORT_PREAMBLE);
    append_str(
        &mut out,
        "## Summary\n\n- screen_decision: `skipped`\n- 理由: docs-only diff のため lint_screen はスキップしました ",
    );
    append_str(
        &mut out,
        "(`.md` / `.markdown` 拡張子のみで Rust hallucinate FP を構造的に防止、Bundle k 順位 123 / ADR-038)\n\n",
    );
    append_str(&mut out, "## Findings\n\n(なし)\n");
    string_of(&out)
}

} // verus!
