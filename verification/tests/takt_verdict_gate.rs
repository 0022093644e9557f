use cli_push_runner::config::takt_verdict_gate::TaktVerdictGateConfig;
use cli_push_runner::stages::takt_verdict::detect::Verdict;
use cli_push_runner::stages::takt_verdict::run_dir::{
    is_under_runs_dir, select_run, RunMeta, RunSelection,
};
use cli_push_runner::stages::takt_verdict::{describe, enabled, run_takt_verdict_gate_with};

const WORKFLOW: &str = "pre-push-review";
const STARTED: &str = "2026-08-31T11:00:00.000Z";
/// 判定時刻。実時計に依存させない。
const NOW: &str = "2026-08-31T12:00:00.000Z";
const APPROVE_REPORT: &str = "# Simplicity Review\n\n## Result: APPROVE\n";
const REJECT_REPORT: &str = "# Simplicity Review\n\n## Result: REJECT\n";

/// `YYYY-MM-DDTHH:MM:SS[.fff]Z` as seconds since the Unix epoch.
fn epoch(s: &str) -> Option<i64> {
    let b = s.as_bytes();
    if b.len() < 20 || b[4] != b'-' || b[7] != b'-' || b[10] != b'T' || b[13] != b':'
        || b[16] != b':' || *b.last()? != b'Z'
    {
        return None;
    }
    let num = |r: std::ops::Range<usize>| -> Option<i64> { s.get(r)?.parse::<i64>().ok() };
    let (y, m, d) = (num(0..4)?, num(5..7)?, num(8..10)?);
    let (hh, mm, ss) = (num(11..13)?, num(14..16)?, num(17..19)?);
    let rest = &s[19..s.len() - 1];
    if !(rest.is_empty() || (rest.starts_with('.') && rest[1..].bytes().all(|c| c.is_ascii_digit())))
    {
        return None;
    }
    let y2 = if m <= 2 { y - 1 } else { y };
    let era = y2.div_euclid(400);
    let yoe = y2 - era * 400;
    let mp = (m + 9) % 12;
    let doy = (153 * mp + 2) / 5 + d - 1;
    let doe = yoe * 365 + yoe / 4 - yoe / 100 + doy;
    let days = era * 146097 + doe - 719468;
    Some(days * 86400 + hh * 3600 + mm * 60 + ss)
}

fn meta(piece: &str, start: &str, dir: &str) -> RunMeta {
    RunMeta {
        piece: piece.to_string(),
        start_time: start.to_string(),
        report_directory: dir.to_string(),
    }
}

fn found_dir<'a>(selection: &'a RunSelection<'a>) -> Option<&'a str> {
    match selection {
        RunSelection::Found(m) => Some(m.report_directory.as_str()),
        _ => None,
    }
}

fn gate(
    config: Option<&TaktVerdictGateConfig>,
    metas: Vec<RunMeta>,
    reports: Vec<(String, Option<String>)>,
) -> bool {
    run_takt_verdict_gate_with(
        config,
        WORKFLOW,
        STARTED,
        NOW,
        false,
        move || metas,
        move |_| reports,
        &epoch,
    )
}

fn one_run(start: &str) -> Vec<RunMeta> {
    vec![meta(WORKFLOW, start, ".takt/runs/x/reports")]
}

fn named(reports: &[(&str, &str)]) -> Vec<(String, Option<String>)> {
    reports
        .iter()
        .map(|(n, b)| (n.to_string(), Some(b.to_string())))
        .collect()
}

fn config(enabled: Option<bool>) -> TaktVerdictGateConfig {
    TaktVerdictGateConfig { enabled }
}

/// security=APPROVE / simplicity=REJECT の run で push を止める。
#[test]
fn a_rejecting_review_blocks_the_push() {
    assert!(!gate(
        None,
        one_run("2026-08-31T11:27:51.421Z"),
        named(&[
            ("security-review.md", APPROVE_REPORT),
            ("simplicity-review.md", REJECT_REPORT),
        ]),
    ));
}

#[test]
fn all_approving_reviews_pass() {
    assert!(gate(
        None,
        one_run("2026-08-31T11:27:51.421Z"),
        named(&[
            ("security-review.md", APPROVE_REPORT),
            ("simplicity-review.md", APPROVE_REPORT),
        ]),
    ));
}

/// run が見つからない = verdict を読めない → 止める。
#[test]
fn a_missing_run_blocks_the_push() {
    assert!(!gate(None, Vec::new(), Vec::new()));
}

/// レポートが 0 件でも止める。
#[test]
fn an_empty_report_directory_blocks_the_push() {
    assert!(!gate(None, one_run("2026-08-31T11:27:51.421Z"), Vec::new()));
}

/// この push より前に始まった run は採らない → 止める。
#[test]
fn an_older_run_is_not_used() {
    assert!(!gate(
        None,
        one_run("2026-08-30T17:13:39.000Z"),
        named(&[("simplicity-review.md", APPROVE_REPORT)]),
    ));
}

#[test]
fn takt_verdict_gate_is_enabled_by_default() {
    assert!(enabled(None));
    assert!(enabled(Some(&config(None))));
}

/// `enabled = false` は恒久停止 (kill-switch)。
#[test]
fn takt_verdict_disabling_the_gate_skips_the_check() {
    assert!(gate(
        Some(&config(Some(false))),
        one_run("2026-08-31T11:27:51.421Z"),
        named(&[("simplicity-review.md", REJECT_REPORT)]),
    ));
}

/// 別 workflow の run を採らない。
#[test]
fn a_run_of_another_workflow_is_not_selected() {
    let candidates = vec![
        meta("post-pr-review", "2026-08-31T11:40:00Z", ".takt/runs/a/reports"),
        meta(WORKFLOW, "2026-08-31T11:30:00Z", ".takt/runs/b/reports"),
    ];
    let selection = select_run(
        &candidates,
        WORKFLOW,
        "2026-08-31T11:00:00Z",
        "2026-08-31T12:00:00Z",
        &epoch,
    );
    assert_eq!(found_dir(&selection), Some(".takt/runs/b/reports"));
}

/// 起動より前に始まった run を採らない。
#[test]
fn a_run_started_before_this_push_is_not_selected() {
    let candidates = vec![meta(
        WORKFLOW,
        "2026-08-30T17:13:39Z",
        ".takt/runs/old/reports",
    )];
    assert_eq!(
        select_run(
            &candidates,
            WORKFLOW,
            "2026-08-31T11:00:00Z",
            "2026-08-31T12:00:00Z",
            &epoch
        ),
        RunSelection::NotFound
    );
}

/// 遠未来の `startTime` を持つ run を採らない。
#[test]
fn a_run_dated_far_in_the_future_is_not_selected() {
    let candidates = vec![
        meta(WORKFLOW, "9999-01-01T00:00:00Z", ".takt/runs/fake/reports"),
        meta(WORKFLOW, "2026-08-31T11:30:00Z", ".takt/runs/real/reports"),
    ];
    let selection = select_run(
        &candidates,
        WORKFLOW,
        "2026-08-31T11:00:00Z",
        "2026-08-31T12:00:00Z",
        &epoch,
    );
    assert_eq!(found_dir(&selection), Some(".takt/runs/real/reports"));
}

/// 窓に 2 つ以上入ったら選ばない。
#[test]
fn multiple_runs_in_the_window_are_ambiguous() {
    let candidates = vec![
        meta(WORKFLOW, "2026-08-31T11:10:00Z", ".takt/runs/one/reports"),
        meta(WORKFLOW, "2026-08-31T11:30:00Z", ".takt/runs/two/reports"),
    ];
    assert_eq!(
        select_run(
            &candidates,
            WORKFLOW,
            "2026-08-31T11:00:00Z",
            "2026-08-31T12:00:00Z",
            &epoch
        ),
        RunSelection::Ambiguous(2)
    );
}

/// 同じ秒に始まった run を捨てない。
#[test]
fn a_run_started_in_the_same_second_is_selected() {
    let candidates = vec![meta(
        WORKFLOW,
        "2026-08-31T11:27:51.421Z",
        ".takt/runs/same-second/reports",
    )];
    let selection = select_run(
        &candidates,
        WORKFLOW,
        "2026-08-31T11:27:51Z",
        "2026-08-31T12:00:00Z",
        &epoch,
    );
    assert_eq!(
        found_dir(&selection),
        Some(".takt/runs/same-second/reports"),
        "同一秒の run を取りこぼしている"
    );
}

/// 解釈できない時刻は候補から外す。
#[test]
fn an_unparsable_start_time_is_skipped() {
    let candidates = vec![meta(WORKFLOW, "not-a-timestamp", ".takt/runs/broken/reports")];
    assert_eq!(
        select_run(
            &candidates,
            WORKFLOW,
            "2026-08-31T11:00:00Z",
            "2026-08-31T12:00:00Z",
            &epoch
        ),
        RunSelection::NotFound
    );
}

/// `.takt/runs/` の外を指す `reportDirectory` は採らない。
#[test]
fn a_report_directory_outside_the_runs_dir_is_rejected() {
    assert!(is_under_runs_dir(".takt/runs/x/reports"));
    assert!(!is_under_runs_dir(".takt/runs/../../etc/reports"));
    assert!(!is_under_runs_dir("/etc/reports"));
    assert!(!is_under_runs_dir("docs/reports"));

    let candidates = vec![meta(WORKFLOW, "2026-08-31T11:30:00Z", "/etc/reports")];
    assert_eq!(
        select_run(
            &candidates,
            WORKFLOW,
            "2026-08-31T11:00:00Z",
            "2026-08-31T12:00:00Z",
            &epoch
        ),
        RunSelection::NotFound
    );
}

#[test]
fn no_candidates_yields_not_found() {
    assert_eq!(
        select_run(
            &[],
            WORKFLOW,
            "2026-08-31T11:00:00Z",
            "2026-08-31T12:00:00Z",
            &epoch
        ),
        RunSelection::NotFound
    );
}

// ---------------------------------------------------------------------------
// Further cases
// ---------------------------------------------------------------------------

#[test]
fn an_unreadable_push_time_finds_no_run() {
    let candidates = vec![meta(WORKFLOW, "2026-08-31T11:30:00Z", ".takt/runs/x/reports")];
    assert_eq!(
        select_run(&candidates, WORKFLOW, "garbage", "2026-08-31T12:00:00Z", &epoch),
        RunSelection::NotFound
    );
    assert_eq!(
        select_run(&candidates, WORKFLOW, "2026-08-31T11:00:00Z", "later", &epoch),
        RunSelection::NotFound
    );
}

#[test]
fn backslashes_count_as_separators_in_report_directories() {
    let bs = char::from(92u8);
    assert!(is_under_runs_dir(&format!(".takt{bs}runs{bs}x{bs}reports")));
    assert!(!is_under_runs_dir(&format!(".takt{bs}runs{bs}..{bs}x")));
}

#[test]
fn an_ambiguous_selection_or_an_unreadable_report_blocks_the_push() {
    let two = vec![
        meta(WORKFLOW, "2026-08-31T11:10:00Z", ".takt/runs/one/reports"),
        meta(WORKFLOW, "2026-08-31T11:30:00Z", ".takt/runs/two/reports"),
    ];
    assert!(!gate(None, two, named(&[("a.md", APPROVE_REPORT)])));
    assert!(!gate(
        None,
        one_run("2026-08-31T11:27:51.421Z"),
        vec![
            ("a.md".to_string(), Some(APPROVE_REPORT.to_string())),
            ("b.md".to_string(), None),
        ],
    ));
}

#[test]
fn the_override_lets_a_rejected_push_through() {
    let metas = one_run("2026-08-31T11:27:51.421Z");
    let reports = named(&[("s.md", REJECT_REPORT)]);
    assert!(run_takt_verdict_gate_with(
        None,
        WORKFLOW,
        STARTED,
        NOW,
        true,
        move || metas,
        move |_| reports,
        &epoch,
    ));
}

#[test]
fn the_reports_are_read_from_the_selected_directory() {
    let seen = std::cell::RefCell::new(String::new());
    let ok = run_takt_verdict_gate_with(
        None,
        WORKFLOW,
        STARTED,
        NOW,
        false,
        || one_run("2026-08-31T11:27:51.421Z"),
        |d: &str| {
            *seen.borrow_mut() = d.to_string();
            named(&[("s.md", APPROVE_REPORT)])
        },
        &epoch,
    );
    assert!(ok);
    assert_eq!(*seen.borrow(), ".takt/runs/x/reports");
}

#[test]
fn verdicts_are_described_for_the_user() {
    assert_eq!(describe(&Verdict::Approve), "APPROVE");
    assert_eq!(describe(&Verdict::Blocking("REJECT".to_string())), "REJECT");
    assert_eq!(describe(&Verdict::Missing), "`## Result:` 行がありません");
}
