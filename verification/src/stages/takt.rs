//! The review workflow: `pnpm exec takt -w <workflow> -t <task label>`,
//! where the task label names the single bookmark being pushed.
use vstd::prelude::*;

use crate::config::takt::TaktConfig;
use crate::stages::scratch_file_warning::opt_views;
use crate::text::{append_str, chars_of, owned, string_of, views};

verus! {

/// Between the task and the bookmark in a task label.
pub const TASK_BOOKMARK_SEPARATOR: &'static str = " for ";

/// The task label: `<task> for <bookmark>` with exactly one bookmark, the
/// bare task otherwise (with several, none can be chosen).
pub open spec fn task_label(task: Seq<char>, bms: Seq<Seq<char>>) -> Seq<char> {
    if bms.len() == 1 {
        task + " for "@ + bms[0]
    } else {
        task
    }
}

/// The arguments of `pnpm` that run the workflow.
pub open spec fn takt_args(
    workflow: Seq<char>,
    label: Seq<char>,
    extra: Seq<Seq<char>>,
) -> Seq<Seq<char>> {
    seq!["exec"@, "takt"@, "-w"@, workflow, "-t"@, label] + extra
}

/// The task label for the bookmarks being pushed.
pub fn build_task_label(task: &str, bookmarks: &[String]) -> (r: String)
    ensures
        r@ == task_label(task@, views(bookmarks@)),
{
    if bookmarks.len() == 1 {
        let mut out = chars_of(task);
        append_str(&mut out, TASK_BOOKMARK_SEPARATOR);
        append_str(&mut out, bookmarks[0].as_str());
        string_of(&out)
    } else {
        owned(task)
    }
}

/// Runs the workflow through `run`, which runs `pnpm` with the given
/// arguments and says whether it succeeded.
pub fn run_takt<F: FnOnce(Vec<String>) -> bool>(
    config: &TaktConfig,
    workflow: &str,
    bookmarks: &[String],
    run: F,
) -> (b: bool)
    requires
        forall|args: Vec<String>| call_requires(run, (args,)),
    ensures
        exists|args: Vec<String>|
            views(args@) == takt_args(
                workflow@,
                task_label(config.task@, views(bookmarks@)),
                opt_views(config.extra_args),
            ) && call_ensures(run, (args,), b),
{
    let label = build_task_label(config.task.as_str(), bookmarks);
    let mut args: Vec<String> = Vec::new();
    args.push(owned("exec"));
    args.push(owned("takt"));
    args.push(owned("-w"));
    args.push(owned(workflow));
    args.push(owned("-t"));
    args.push(label);
    let ghost head = views(args@);
    let ghost extra: Seq<Seq<char>> = opt_views(config.extra_args);
    match &config.extra_args {
        Some(v) => {
            let mut k: usize = 0;
            while k < v.len()
                invariant
                    k <= v@.len(),
                    extra == views(v@),
                    views(args@) == head + extra.take(k as int),
                decreases v@.len() - k,
            {
                let ghost before = args@;
                args.push(owned(v[k].as_str()));
                assert(views(args@) == views(before).push(v@[k as int]@));
                assert(extra.take(k + 1) == extra.take(k as int).push(v@[k as int]@));
                k += 1;
            }
            assert(extra.take(v@.len() as int) == extra);
        },
        None => {
            assert(extra.len() == 0);
        },
    }
    let ghost ga = args;
    let b = run(args);
    assert(views(ga@) == takt_args(workflow@, task_label(config.task@, views(bookmarks@)), extra));
    assert(call_ensures(run, (ga,), b));
    b
}

} // verus!
