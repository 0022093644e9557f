//! The detector over hand-written models of the sources in the comments:
//! each `FnShape` holds what a parse of that source gives.
use cli_push_runner::stages::testability_gate::detect::{
    has_cfg_test, is_io_path, returns_bool_decision, scan_functions, scan_items, Arm, Ex, FnShape,
    ItemModel, LocalItem, Pt, ReturnShape,
};

fn p(name: &str) -> Ex {
    Ex::Path(vec![name.to_string()], Some(name.to_string()))
}

fn ps(segs: &[&str]) -> Ex {
    let ident = if segs.len() == 1 {
        Some(segs[0].to_string())
    } else {
        None
    };
    Ex::Path(segs.iter().map(|s| s.to_string()).collect(), ident)
}

fn call(f: Ex, args: Vec<Ex>) -> Ex {
    Ex::Call(Box::new(f), args)
}

fn method(recv: Ex, name: &str, args: Vec<Ex>) -> Ex {
    Ex::MethodCall(Box::new(recv), name.to_string(), args)
}

fn wrapped(e: Ex) -> Ex {
    Ex::Wrapped(Box::new(e))
}

fn both(a: Ex, b: Ex) -> Ex {
    Ex::Both(Box::new(a), Box::new(b))
}

fn id(n: &str) -> Pt {
    Pt::Ident(n.to_string(), None)
}

fn local(pat: Pt, init: Ex) -> LocalItem {
    LocalItem {
        pat,
        init: Some(init),
    }
}

fn ret(last: &str, first_arg_is_bool: bool) -> ReturnShape {
    ReturnShape {
        path_last: Some(last.to_string()),
        first_arg_is_bool,
    }
}

fn shape(
    name: &str,
    line: usize,
    returns: ReturnShape,
    called: &[&[&str]],
    methods: &[&str],
    locals: Vec<LocalItem>,
    decisions: Vec<Ex>,
) -> FnShape {
    FnShape {
        name: name.to_string(),
        line,
        returns,
        called_paths: called
            .iter()
            .map(|c| c.iter().map(|s| s.to_string()).collect())
            .collect(),
        method_names: methods.iter().map(|s| s.to_string()).collect(),
        locals,
        decisions,
    }
}

fn names(fns: Vec<FnShape>) -> Vec<String> {
    scan_functions(&fns).into_iter().map(|f| f.function).collect()
}

/// `let (ok, out) = run_cmd_direct("jj", &["log"], &[], 30);`
fn run_cmd_binding(out: &str) -> LocalItem {
    local(
        Pt::Group(vec![id("ok"), id(out)]),
        call(
            p("run_cmd_direct"),
            vec![Ex::Other, wrapped(Ex::Other), wrapped(Ex::Other), Ex::Other],
        ),
    )
}

/// ```ignore
/// fn diff_at_is_empty() -> bool {
///     let (ok, out) = run_cmd_direct("jj", &["log"], &[], 30);
///     if !ok {
///         log_info("判定失敗");
///         return false;
///     }
///     out.trim() == "true"
/// }
/// ```
fn incident() -> FnShape {
    shape(
        "diff_at_is_empty",
        2,
        ret("bool", false),
        &[&["run_cmd_direct"], &["log_info"]],
        &["trim"],
        vec![run_cmd_binding("out")],
        vec![
            both(method(p("out"), "trim", vec![]), Ex::Other),
            Ex::Other,
        ],
    )
}

#[test]
fn fires_on_the_incident_shape() {
    assert_eq!(names(vec![incident()]), vec!["diff_at_is_empty"]);
}

/// ```ignore
/// fn diff_at_is_empty() -> bool { interpret_at_emptiness(query_at_emptiness()) }
/// fn query_at_emptiness() -> Result<String, String> {
///     let (ok, out) = run_cmd_direct("jj", &["log"], &[], 30);
///     if ok { Ok(out) } else { Err(out) }
/// }
/// fn interpret_at_emptiness(raw: Result<String, String>) -> bool {
///     matches!(raw, Ok(s) if s.trim() == "true")
/// }
/// ```
#[test]
fn does_not_fire_on_the_remedy_shape() {
    let fns = vec![
        shape(
            "diff_at_is_empty",
            2,
            ret("bool", false),
            &[&["interpret_at_emptiness"], &["query_at_emptiness"]],
            &[],
            vec![],
            vec![call(
                p("interpret_at_emptiness"),
                vec![call(p("query_at_emptiness"), vec![])],
            )],
        ),
        shape(
            "query_at_emptiness",
            5,
            ret("Result", false),
            &[&["run_cmd_direct"], &["Ok"], &["Err"]],
            &[],
            vec![run_cmd_binding("out")],
            vec![Ex::If(
                None,
                Some(Box::new(call(p("Ok"), vec![p("out")]))),
                Some(Box::new(Ex::Block(Some(Box::new(call(
                    p("Err"),
                    vec![p("out")],
                )))))),
            )],
        ),
        shape(
            "interpret_at_emptiness",
            9,
            ret("bool", false),
            &[],
            &[],
            vec![],
            vec![Ex::Other],
        ),
    ];
    assert!(names(fns).is_empty());
}

/// ```ignore
/// fn diff_at_is_empty() -> bool {
///     let (ok, out) = run_cmd_direct("jj", &["log"], &[], 30);
///     if !ok { return false; }
///     let empty = out.trim() == "true";
///     empty
/// }
/// ```
#[test]
fn fires_when_the_interpretation_is_bound_to_a_local() {
    let f = shape(
        "diff_at_is_empty",
        2,
        ret("bool", false),
        &[&["run_cmd_direct"]],
        &["trim"],
        vec![
            run_cmd_binding("out"),
            local(id("empty"), both(method(p("out"), "trim", vec![]), Ex::Other)),
        ],
        vec![p("empty"), Ex::Other],
    );
    assert_eq!(names(vec![f]), vec!["diff_at_is_empty"]);
}

/// ```ignore
/// fn push_ok() -> bool {
///     let (ok, _out) = run_cmd_direct("jj", &["git", "push"], &[], 30);
///     let succeeded = ok;
///     succeeded
/// }
/// ```
#[test]
fn does_not_fire_when_a_bound_local_is_just_the_io_status() {
    let f = shape(
        "push_ok",
        2,
        ret("bool", false),
        &[&["run_cmd_direct"]],
        &[],
        vec![run_cmd_binding("_out"), local(id("succeeded"), p("ok"))],
        vec![p("succeeded")],
    );
    assert!(names(vec![f]).is_empty());
}

/// ```ignore
/// fn query_raw() -> String {
///     let (_, out) = std::process::Command::new("jj").output().unwrap();
///     out
/// }
/// fn is_clean() -> bool {
///     let raw = query_raw();
///     raw.trim().is_empty()
/// }
/// ```
#[test]
fn fires_when_io_comes_through_a_same_file_helper() {
    let fns = vec![
        shape(
            "query_raw",
            2,
            ret("String", false),
            &[&["std", "process", "Command", "new"]],
            &["output", "unwrap"],
            vec![local(
                Pt::Group(vec![Pt::Other, id("out")]),
                method(
                    method(call(ps(&["std", "process", "Command", "new"]), vec![Ex::Other]), "output", vec![]),
                    "unwrap",
                    vec![],
                ),
            )],
            vec![p("out")],
        ),
        shape(
            "is_clean",
            6,
            ret("bool", false),
            &[&["query_raw"]],
            &["trim", "is_empty"],
            vec![local(id("raw"), call(p("query_raw"), vec![]))],
            vec![method(method(p("raw"), "trim", vec![]), "is_empty", vec![])],
        ),
    ];
    assert_eq!(names(fns), vec!["is_clean"]);
}

/// ```ignore
/// fn meta_status_is_running(p: &Path) -> bool {
///     let Ok(content) = std::fs::read_to_string(p) else { return false; };
///     let Ok(meta) = serde_json::from_str::<Meta>(&content) else { return false; };
///     meta.status.as_deref() == Some("running")
/// }
/// ```
#[test]
fn fires_through_deserialization() {
    let f = shape(
        "meta_status_is_running",
        2,
        ret("bool", false),
        &[&["std", "fs", "read_to_string"], &["serde_json", "from_str"], &["Some"]],
        &["as_deref"],
        vec![
            local(
                Pt::Group(vec![id("content")]),
                call(ps(&["std", "fs", "read_to_string"]), vec![p("p")]),
            ),
            local(
                Pt::Group(vec![id("meta")]),
                call(ps(&["serde_json", "from_str"]), vec![wrapped(p("content"))]),
            ),
        ],
        vec![
            both(
                method(wrapped(p("meta")), "as_deref", vec![]),
                call(p("Some"), vec![Ex::Other]),
            ),
            Ex::Other,
            Ex::Other,
        ],
    );
    assert_eq!(names(vec![f]), vec!["meta_status_is_running"]);
}

/// ```ignore
/// fn run_check() -> bool {
///     let raw = match run_jj_list() { Ok(o) => o, Err(_) => return true };
///     let items = parse_items(&raw);
///     if items.is_empty() { return false; }
///     true
/// }
/// fn run_jj_list() -> Result<String, String> { .. Command::new .. Ok(out) }
/// fn parse_items(raw: &str) -> Vec<String> { .. }
/// ```
#[test]
fn does_not_fire_on_branch_then_literal() {
    let fns = vec![
        shape(
            "run_check",
            2,
            ret("bool", false),
            &[&["run_jj_list"], &["parse_items"]],
            &["is_empty"],
            vec![
                local(
                    id("raw"),
                    Ex::Match(
                        Box::new(call(p("run_jj_list"), vec![])),
                        vec![
                            Arm {
                                pat: Pt::Group(vec![id("o")]),
                                body: p("o"),
                            },
                            Arm {
                                pat: Pt::Group(vec![Pt::Other]),
                                body: Ex::Other,
                            },
                        ],
                    ),
                ),
                local(id("items"), call(p("parse_items"), vec![wrapped(p("raw"))])),
            ],
            vec![Ex::Other, Ex::Other, Ex::Other],
        ),
        shape(
            "run_jj_list",
            9,
            ret("Result", false),
            &[&["std", "process", "Command", "new"], &["Ok"]],
            &["output", "unwrap"],
            vec![],
            vec![call(p("Ok"), vec![p("out")])],
        ),
        shape(
            "parse_items",
            13,
            ret("Vec", false),
            &[],
            &["lines", "map", "collect"],
            vec![],
            vec![Ex::Other],
        ),
    ];
    assert!(names(fns).is_empty());
}

/// ```ignore
/// fn write_marker(p: &Path, body: &str) -> bool {
///     match std::fs::write(p, body) {
///         Ok(()) => true,
///         Err(e) => { log_info(&format!("{e}")); false }
///     }
/// }
/// ```
#[test]
fn does_not_fire_on_io_success_wrapper() {
    let f = shape(
        "write_marker",
        2,
        ret("bool", false),
        &[&["std", "fs", "write"], &["log_info"]],
        &[],
        vec![],
        vec![Ex::Match(
            Box::new(call(ps(&["std", "fs", "write"]), vec![p("p"), p("body")])),
            vec![
                Arm {
                    pat: Pt::Group(vec![Pt::Group(vec![])]),
                    body: Ex::Other,
                },
                Arm {
                    pat: Pt::Group(vec![id("e")]),
                    body: Ex::Block(Some(Box::new(Ex::Other))),
                },
            ],
        )],
    );
    assert!(names(vec![f]).is_empty());
}

/// ```ignore
/// fn remote_ref_exists(revset: &str) -> bool {
///     cached(revset, || std::process::Command::new("jj").spawn())
/// }
/// fn cached(key: &str, f: impl Fn() -> std::io::Result<Child>) -> bool { f().is_ok() }
/// ```
#[test]
fn does_not_fire_on_injection() {
    let fns = vec![
        shape(
            "remote_ref_exists",
            2,
            ret("bool", false),
            &[&["cached"], &["std", "process", "Command", "new"]],
            &["spawn"],
            vec![],
            vec![call(
                p("cached"),
                vec![
                    p("revset"),
                    Ex::Closure(Box::new(method(
                        call(ps(&["std", "process", "Command", "new"]), vec![Ex::Other]),
                        "spawn",
                        vec![],
                    ))),
                ],
            )],
        ),
        shape(
            "cached",
            5,
            ret("bool", false),
            &[&["f"]],
            &["is_ok"],
            vec![],
            vec![method(call(p("f"), vec![]), "is_ok", vec![])],
        ),
    ];
    assert!(names(fns).is_empty());
}

/// ```ignore
/// fn read_meta(p: &Path) -> Option<Meta> {
///     let s = std::fs::read_to_string(p).ok()?;
///     serde_json::from_str(&s).ok()
/// }
/// ```
#[test]
fn ignores_non_bool_return_types() {
    let f = shape(
        "read_meta",
        2,
        ret("Option", false),
        &[&["std", "fs", "read_to_string"], &["serde_json", "from_str"]],
        &["ok"],
        vec![local(
            id("s"),
            wrapped(method(call(ps(&["std", "fs", "read_to_string"]), vec![p("p")]), "ok", vec![])),
        )],
        vec![method(call(ps(&["serde_json", "from_str"]), vec![wrapped(p("s"))]), "ok", vec![])],
    );
    assert!(names(vec![f]).is_empty());
}

/// `#[cfg(test)] mod tests { .. }` is not scanned.
#[test]
fn skips_test_modules() {
    assert!(has_cfg_test(&vec![("cfg".to_string(), "test".to_string())]));
    assert!(!has_cfg_test(&vec![(
        "cfg".to_string(),
        "feature = \"x\"".to_string()
    )]));
    assert!(!has_cfg_test(&vec![("allow".to_string(), "test".to_string())]));
}

#[test]
fn reports_the_function_line() {
    let findings = scan_functions(&vec![incident()]);
    assert_eq!(findings.len(), 1);
    assert_eq!(findings[0].line, 2, "{findings:?}");
}

// ---------------------------------------------------------------------------
// Further cases
// ---------------------------------------------------------------------------

#[test]
fn findings_come_ordered_by_line() {
    let mut late = incident();
    late.name = "late".to_string();
    late.line = 40;
    let mut early = incident();
    early.name = "early".to_string();
    early.line = 3;
    assert_eq!(names(vec![late, early]), vec!["early", "late"]);
}

#[test]
fn io_paths_are_told_by_their_end_or_helper_prefix() {
    let v = |s: &[&str]| s.iter().map(|x| x.to_string()).collect::<Vec<_>>();
    assert!(is_io_path(&v(&["std", "fs", "read_to_string"])));
    assert!(is_io_path(&v(&["Command", "new"])));
    assert!(is_io_path(&v(&["lib_subprocess", "run_gh_json"])));
    assert!(!is_io_path(&v(&["serde_json", "from_str"])));
    assert!(!is_io_path(&v(&[])));
}

#[test]
fn bool_decisions_are_bool_option_bool_and_result_bool() {
    assert!(returns_bool_decision(&ret("bool", false)));
    assert!(returns_bool_decision(&ret("Option", true)));
    assert!(returns_bool_decision(&ret("Result", true)));
    assert!(!returns_bool_decision(&ret("Option", false)));
    assert!(!returns_bool_decision(&ret("Vec", true)));
    assert!(!returns_bool_decision(&ReturnShape {
        path_last: None,
        first_arg_is_bool: false
    }));
}

#[test]
fn items_in_test_modules_are_not_scanned() {
    let mut in_impl = incident();
    in_impl.name = "in_impl".to_string();
    in_impl.line = 20;
    let mut in_mod = incident();
    in_mod.name = "in_mod".to_string();
    in_mod.line = 30;
    let mut in_tests = incident();
    in_tests.name = "in_tests".to_string();
    in_tests.line = 40;
    let items = vec![
        ItemModel::Fn(incident()),
        ItemModel::Impl(vec![in_impl]),
        ItemModel::Mod(vec![], Some(vec![ItemModel::Fn(in_mod)])),
        ItemModel::Mod(
            vec![("cfg".to_string(), "test".to_string())],
            Some(vec![ItemModel::Fn(in_tests)]),
        ),
        ItemModel::Mod(vec![], None),
        ItemModel::Other,
    ];
    let names: Vec<String> = scan_items(items).into_iter().map(|f| f.function).collect();
    assert_eq!(names, vec!["diff_at_is_empty", "in_impl", "in_mod"]);
}
