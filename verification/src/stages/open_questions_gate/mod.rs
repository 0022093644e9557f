//! Open-questions gate: a push stops while `docs/open-questions.md` holds a
//! question. A missing or unreadable document lets the push go on, and so
//! does the override; `enabled = false` stops the check from running.
pub mod detect;

use vstd::prelude::*;

use crate::config::open_questions_gate::OpenQuestionsGateConfig;
use detect::{open_questions, questions_of, OpenQuestion};

verus! {

/// The check runs unless the section sets `enabled = false`.
pub open spec fn gate_enabled(config: Option<OpenQuestionsGateConfig>) -> bool {
    match config {
        Some(c) => match c.enabled {
            Some(e) => e,
            None => true,
        },
        None => true,
    }
}

/// The view of an optional config reference.
pub open spec fn opt_config(config: Option<&OpenQuestionsGateConfig>) -> Option<
    OpenQuestionsGateConfig,
> {
    match config {
        Some(c) => Some(*c),
        None => None,
    }
}

/// The push may go on given what the document read gave.
pub open spec fn document_allows_push(content: Option<String>) -> bool {
    match content {
        None => true,
        Some(c) => questions_of(c@).len() == 0,
    }
}

/// Whether the check runs.
pub fn enabled(config: Option<&OpenQuestionsGateConfig>) -> (b: bool)
    ensures
        b == gate_enabled(opt_config(config)),
{
    match config {
        Some(c) => match c.enabled {
            Some(e) => e,
            None => true,
        },
        None => true,
    }
}

/// Whether the push may go on with these open questions: only with none.
pub fn report(questions: &[OpenQuestion]) -> (b: bool)
    ensures
        b == (questions@.len() == 0),
{
    questions.len() == 0
}

/// The check: not run, overridden, or reading `docs/open-questions.md` through
/// `read` (`None` when the document is missing or unreadable). Whether the
/// push may go on.
pub fn run_open_questions_gate_with<R: FnOnce(&str) -> Option<String>>(
    config: Option<&OpenQuestionsGateConfig>,
    override_active: bool,
    read: R,
) -> (b: bool)
    requires
        forall|p: &str| call_requires(read, (p,)),
    ensures
        !gate_enabled(opt_config(config)) || override_active ==> b,
        gate_enabled(opt_config(config)) && !override_active ==> exists|p: &str, c: Option<String>|
            p@ == "docs/open-questions.md"@ && call_ensures(read, (p,), c) && b
                == document_allows_push(c),
{
    if !enabled(config) || override_active {
        return true;
    }
    let path: &str = "docs/open-questions.md";
    let content = read(path);
    let ghost gc = content;
    let b = match content {
        None => true,
        Some(c) => {
            let qs = open_questions(c.as_str());
            report(qs.as_slice())
        },
    };
    assert(call_ensures(read, (path,), gc));
    b
}

} // verus!
