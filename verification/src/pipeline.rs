//! The order of the pipeline's stages and its exit codes: from the stage
//! that just ran and how it ended, which stage runs next, or with which
//! code the pipeline ends.
//!
//! bookmark check → scratch files → PR size → docs-only routing → quality
//! gate → diff → takt → post-takt re-gate → push. An empty diff skips the
//! review and goes straight to the push.
use vstd::prelude::*;

verus! {

/// Every stage passed and the push succeeded.
pub const EXIT_SUCCESS: i32 = 0;

/// The quality gate failed (also when re-run after takt).
pub const EXIT_QUALITY_GATE_FAILURE: i32 = 1;

/// The takt workflow failed.
pub const EXIT_TAKT_FAILURE: i32 = 2;

/// The push failed.
pub const EXIT_PUSH_FAILURE: i32 = 3;

/// The configuration could not be loaded.
pub const EXIT_CONFIG_ERROR: i32 = 4;

/// The diff could not be taken.
pub const EXIT_DIFF_FAILURE: i32 = 5;

/// Scratch files were found.
pub const EXIT_SCRATCH_FILE_WARNING: i32 = 6;

/// No bookmark the push may carry.
pub const EXIT_BOOKMARK_MISSING: i32 = 7;

/// The PR is over the size limit.
pub const EXIT_PR_SIZE_EXCEEDED: i32 = 8;

/// A stage of the pipeline.
#[derive(Debug, PartialEq, Eq, Clone, Copy)]
pub enum Stage {
    BookmarkCheck,
    ScratchFileWarning,
    PrSizeCheck,
    DocsOnlyRouting,
    QualityGate,
    Diff,
    Takt,
    PostTaktRegate,
    Push,
}

/// How a stage ended. `Empty` is the diff stage's empty diff; for the
/// other stages it counts as passing.
#[derive(Debug, PartialEq, Eq, Clone, Copy)]
pub enum Outcome {
    Passed,
    Failed,
    Empty,
}

/// What the pipeline does next.
#[derive(Debug, PartialEq, Eq, Clone, Copy)]
pub enum Step {
    Run(Stage),
    Exit(i32),
}

/// The step after `stage` ended with `outcome`.
pub open spec fn step_after(stage: Stage, outcome: Outcome) -> Step {
    let failed = outcome == Outcome::Failed;
    match stage {
        Stage::BookmarkCheck => if failed {
            Step::Exit(EXIT_BOOKMARK_MISSING)
        } else {
            Step::Run(Stage::ScratchFileWarning)
        },
        Stage::ScratchFileWarning => if failed {
            Step::Exit(EXIT_SCRATCH_FILE_WARNING)
        } else {
            Step::Run(Stage::PrSizeCheck)
        },
        Stage::PrSizeCheck => if failed {
            Step::Exit(EXIT_PR_SIZE_EXCEEDED)
        } else {
            Step::Run(Stage::DocsOnlyRouting)
        },
        Stage::DocsOnlyRouting => Step::Run(Stage::QualityGate),
        Stage::QualityGate => if failed {
            Step::Exit(EXIT_QUALITY_GATE_FAILURE)
        } else {
            Step::Run(Stage::Diff)
        },
        Stage::Diff => if failed {
            Step::Exit(EXIT_DIFF_FAILURE)
        } else if outcome == Outcome::Empty {
            Step::Run(Stage::Push)
        } else {
            Step::Run(Stage::Takt)
        },
        Stage::Takt => if failed {
            Step::Exit(EXIT_TAKT_FAILURE)
        } else {
            Step::Run(Stage::PostTaktRegate)
        },
        Stage::PostTaktRegate => if failed {
            Step::Exit(EXIT_QUALITY_GATE_FAILURE)
        } else {
            Step::Run(Stage::Push)
        },
        Stage::Push => if failed {
            Step::Exit(EXIT_PUSH_FAILURE)
        } else {
            Step::Exit(EXIT_SUCCESS)
        },
    }
}

/// Where the pipeline ends when the stages it runs from `stage` end with
/// `outcomes` in turn; `None` when the outcomes run out first.
pub open spec fn run_from(stage: Stage, outcomes: Seq<Outcome>) -> Option<i32>
    decreases outcomes.len(),
{
    if outcomes.len() == 0 {
        None
    } else {
        match step_after(stage, outcomes[0]) {
            Step::Exit(code) => Some(code),
            Step::Run(next) => run_from(next, outcomes.drop_first()),
        }
    }
}

/// The stages a run goes through from `stage`, with the outcomes given.
pub open spec fn stages_run(stage: Stage, outcomes: Seq<Outcome>) -> Seq<Stage>
    decreases outcomes.len(),
{
    if outcomes.len() == 0 {
        seq![]
    } else {
        seq![stage] + match step_after(stage, outcomes[0]) {
            Step::Exit(_) => seq![],
            Step::Run(next) => stages_run(next, outcomes.drop_first()),
        }
    }
}

/// The pipeline starts with the bookmark check.
pub fn first_stage() -> (s: Stage)
    ensures
        s == Stage::BookmarkCheck,
{
    Stage::BookmarkCheck
}

/// The step after `stage` ended with `outcome`: a failing check ends the
/// pipeline with its own code, an empty diff skips the review, and a
/// successful push ends it with success.
pub fn next_step(stage: Stage, outcome: Outcome) -> (s: Step)
    ensures
        s == step_after(stage, outcome),
{
    let failed = match outcome {
        Outcome::Failed => true,
        _ => false,
    };
    match stage {
        Stage::BookmarkCheck => if failed {
            Step::Exit(EXIT_BOOKMARK_MISSING)
        } else {
            Step::Run(Stage::ScratchFileWarning)
        },
        Stage::ScratchFileWarning => if failed {
            Step::Exit(EXIT_SCRATCH_FILE_WARNING)
        } else {
            Step::Run(Stage::PrSizeCheck)
        },
        Stage::PrSizeCheck => if failed {
            Step::Exit(EXIT_PR_SIZE_EXCEEDED)
        } else {
            Step::Run(Stage::DocsOnlyRouting)
        },
        Stage::DocsOnlyRouting => Step::Run(Stage::QualityGate),
        Stage::QualityGate => if failed {
            Step::Exit(EXIT_QUALITY_GATE_FAILURE)
        } else {
            Step::Run(Stage::Diff)
        },
        Stage::Diff => match outcome {
            Outcome::Failed => Step::Exit(EXIT_DIFF_FAILURE),
            Outcome::Empty => Step::Run(Stage::Push),
            Outcome::Passed => Step::Run(Stage::Takt),
        },
        Stage::Takt => if failed {
            Step::Exit(EXIT_TAKT_FAILURE)
        } else {
            Step::Run(Stage::PostTaktRegate)
        },
        Stage::PostTaktRegate => if failed {
            Step::Exit(EXIT_QUALITY_GATE_FAILURE)
        } else {
            Step::Run(Stage::Push)
        },
        Stage::Push => if failed {
            Step::Exit(EXIT_PUSH_FAILURE)
        } else {
            Step::Exit(EXIT_SUCCESS)
        },
    }
}

// ---------------------------------------------------------------------------
// Laws
// ---------------------------------------------------------------------------

/// A run ends with success only when no stage failed (the docs-only
/// routing cannot stop the pipeline), and the push was the last stage it
/// ran.
#[verifier::rlimit(40)]
pub proof fn lemma_success_means_nothing_failed(stage: Stage, outcomes: Seq<Outcome>)
    requires
        run_from(stage, outcomes) == Some(EXIT_SUCCESS),
    ensures
        0 < stages_run(stage, outcomes).len() <= outcomes.len(),
        stages_run(stage, outcomes).last() == Stage::Push,
        forall|k: int|
            0 <= k < stages_run(stage, outcomes).len() && stages_run(stage, outcomes)[k]
                != Stage::DocsOnlyRouting ==> #[trigger] outcomes[k] != Outcome::Failed,
    decreases outcomes.len(),
{
    let st = step_after(stage, outcomes[0]);
    assert(run_from(stage, outcomes) == match st {
        Step::Exit(code) => Some(code),
        Step::Run(next) => run_from(next, outcomes.drop_first()),
    });
    assert(stages_run(stage, outcomes) == seq![stage] + match st {
        Step::Exit(_) => seq![],
        Step::Run(next) => stages_run(next, outcomes.drop_first()),
    });
    match st {
        Step::Exit(code) => {
            assert(code == EXIT_SUCCESS);
            assert(stage == Stage::Push && outcomes[0] != Outcome::Failed);
            assert(stages_run(stage, outcomes) =~= seq![stage]);
        },
        Step::Run(next) => {
            let rest = outcomes.drop_first();
            lemma_success_means_nothing_failed(next, rest);
            assert(stages_run(stage, outcomes) =~= seq![stage] + stages_run(next, rest));
            assert forall|k: int|
                0 <= k < stages_run(stage, outcomes).len() && stages_run(stage, outcomes)[k]
                    != Stage::DocsOnlyRouting implies #[trigger] outcomes[k] != Outcome::Failed by {
                if k > 0 {
                    assert(outcomes[k] == rest[k - 1]);
                    assert(stages_run(stage, outcomes)[k] == stages_run(next, rest)[k - 1]);
                }
            }
        },
    }
}

/// From the start, every check (bookmarks, scratch files, PR size, quality
/// gate) runs before the push: a run that reaches the push went through
/// each of them in order.
pub proof fn lemma_checks_precede_the_push(outcomes: Seq<Outcome>)
    requires
        stages_run(Stage::BookmarkCheck, outcomes).contains(Stage::Push),
    ensures
        stages_run(Stage::BookmarkCheck, outcomes).len() >= 7,
        stages_run(Stage::BookmarkCheck, outcomes).subrange(0, 6) == seq![
            Stage::BookmarkCheck,
            Stage::ScratchFileWarning,
            Stage::PrSizeCheck,
            Stage::DocsOnlyRouting,
            Stage::QualityGate,
            Stage::Diff,
        ],
        forall|k: int| 0 <= k < 6 && k != 3 ==> #[trigger] outcomes[k] != Outcome::Failed,
{
    reveal_with_fuel(stages_run, 8);
    let s = stages_run(Stage::BookmarkCheck, outcomes);
    let o = outcomes;
    assert(o.len() >= 1);
    assert(o[0] != Outcome::Failed);
    assert(o.len() >= 2 && o[1] != Outcome::Failed);
    assert(o.len() >= 3 && o[2] != Outcome::Failed);
    assert(o.len() >= 4);
    assert(o.len() >= 5 && o[4] != Outcome::Failed);
    assert(o.len() >= 6 && o[5] != Outcome::Failed);
    assert(o.len() >= 7);
}

} // verus!
