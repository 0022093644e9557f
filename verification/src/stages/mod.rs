//! The pipeline stages' decision logic.
pub mod bookmark_check;
pub mod diff;
pub mod docs_only_routing;
pub mod ledger_completion;
pub mod lint_screen;
pub mod open_questions_gate;
pub mod post_takt_regate;
pub mod pr_size_check;
pub mod push;
pub mod push_jj_bookmark;
pub mod quality_gate;
pub mod scratch_file_warning;
pub mod takt;
pub mod takt_verdict;
pub mod testability_gate;
