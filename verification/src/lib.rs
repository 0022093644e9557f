//! Decision logic of the pre-push pipeline runner: configuration resolution,
//! diff and report processing, and the verdicts of each gate.
pub mod config;
pub mod pipeline;
pub mod stages;
pub mod text;
