use cli_push_runner::config::open_questions_gate::OpenQuestionsGateConfig;
use cli_push_runner::stages::open_questions_gate::detect::open_questions;
use cli_push_runner::stages::open_questions_gate::{enabled, report, run_open_questions_gate_with};

fn config(enabled: Option<bool>) -> OpenQuestionsGateConfig {
    OpenQuestionsGateConfig { enabled }
}

const ONE_QUESTION: &str = "## Q-1: 問い\n\n関連: a.rs\n仮定: A\n";

#[test]
fn a_document_with_questions_blocks_the_push() {
    assert!(!run_open_questions_gate_with(None, false, |_| Some(
        ONE_QUESTION.to_string()
    )));
}

#[test]
fn a_document_without_questions_passes() {
    assert!(run_open_questions_gate_with(None, false, |_| Some(
        "# 未解決の問い\n\n(現在なし)\n".to_string()
    )));
}

/// ファイル不在は pass。問いが書かれていないのに止めると、gate を切る動機を作る。
#[test]
fn a_missing_document_passes() {
    assert!(run_open_questions_gate_with(None, false, |_| None));
}

/// 既定は有効 (config 不在でも問いがあれば止まる)。
#[test]
fn mod_the_gate_is_enabled_by_default() {
    assert!(enabled(None));
    assert!(enabled(Some(&config(None))));
}

/// `enabled = false` は恒久停止 (kill-switch)。
#[test]
fn mod_disabling_the_gate_skips_the_check() {
    assert!(run_open_questions_gate_with(
        Some(&config(Some(false))),
        false,
        |_| Some(ONE_QUESTION.to_string())
    ));
}

/// 読み取り対象は `docs/open-questions.md` に固定されている。
#[test]
fn the_gate_reads_the_documented_path() {
    let mut seen = None;
    let _ = run_open_questions_gate_with(None, false, |path: &str| {
        seen = Some(path.to_string());
        None
    });
    assert_eq!(seen.as_deref(), Some("docs/open-questions.md"));
}

#[test]
fn the_report_lists_every_question() {
    let questions = open_questions("## Q-1: 一つ目\n\n## Q-2: 二つ目\n");
    assert_eq!(questions.len(), 2);
    assert!(!report(&questions));
    assert!(report(&[]));
}
