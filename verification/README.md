# cli_push_runner

The decision logic of a pre-push pipeline, verified with Verus.

Before a push, the pipeline checks the workspace's bookmarks, scratch
files and the size of the pull request, routes docs-only changes, runs the
quality command groups, takes the review diff (and an advisory lint
screen), runs the takt review workflow, re-runs the quality gate when the
review changed the working copy, and pushes only the workspace's own
bookmarks.

- `src/` is the library: the configuration and its checks, each stage's
  parsing and verdicts, the order of the stages and the exit codes
  (`pipeline`), and the string helpers they share (`text`). Every
  function carries a contract that Verus proves; the outside work a stage
  needs (a jj query, a subprocess, a file read) is handed in as a closure,
  and the contracts say what holds of whatever it returned. So is the
  reading of a Rust source into the testability detector's item model
  (Verus cannot look into syn's syntax tree); the detector, the walk
  through modules and `impl`s and the skip of test modules are verified.
- `app/` is the program around it: reading the configuration file,
  running jj and the other commands, reading Rust sources with syn for
  the testability gate, and the run metrics.
- `tests/` runs the library on concrete values.
