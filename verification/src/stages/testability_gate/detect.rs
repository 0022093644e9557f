//! The detector: functions that decide a `bool` (or `Option<bool>` /
//! `Result<bool, _>`) by interpreting I/O output in place, so that no
//! pure function is left to test the interpretation.
//!
//! The source is read into a small model of what the detector looks at:
//! each function's return type, the calls and methods in its body, its
//! `let` bindings and the expressions it returns. An I/O value taints the
//! locals it is bound to; a returned expression that interprets a tainted
//! value (rather than passing it on or checking only success) fires. A
//! call of a same-file function without I/O of its own stops the taint:
//! that function is where the interpretation can be tested.
use vstd::prelude::*;

use crate::text::{chars_eq, chars_of, ends_with, join, join_strings, owned, span_ends_with,
    span_starts_with, starts_with, views,
};

verus! {

// ---------------------------------------------------------------------------
// The model
// ---------------------------------------------------------------------------

/// A pattern, as far as the identifiers it binds go.
pub enum Pt {
    /// `name` or `name @ sub`.
    Ident(String, Option<Box<Pt>>),
    /// A pattern made of sub-patterns (tuple, tuple struct, struct, slice,
    /// alternatives, reference, typed pattern).
    Group(Vec<Pt>),
    /// A pattern that binds nothing.
    Other,
}

/// An expression, as far as the detector reads it.
pub enum Ex {
    /// A path: its segments, and the identifier when the path is one.
    Path(Vec<String>, Option<String>),
    /// A call: the callee and the arguments.
    Call(Box<Ex>, Vec<Ex>),
    /// A method call: the receiver, the method and the arguments.
    MethodCall(Box<Ex>, String, Vec<Ex>),
    /// A closure: its body.
    Closure(Box<Ex>),
    /// Parentheses, a group or a unary operator: looked through.
    Grouped(Box<Ex>),
    /// A reference, field access, `?`, cast or `.await`.
    Wrapped(Box<Ex>),
    /// A binary operation or an index.
    Both(Box<Ex>, Box<Ex>),
    /// A tuple.
    Tuple(Vec<Ex>),
    /// A block: its tail expression, if it has one.
    Block(Option<Box<Ex>>),
    /// A match: the scrutinee and the arms.
    Match(Box<Ex>, Vec<Arm>),
    /// An `if`: the `let` of an `if let`, the tail of the then branch, the
    /// else branch.
    If(Option<Box<LetCond>>, Option<Box<Ex>>, Option<Box<Ex>>),
    /// Anything else.
    Other,
}

/// A match arm.
pub struct Arm {
    pub pat: Pt,
    pub body: Ex,
}

/// The `let` of an `if let`.
pub struct LetCond {
    pub pat: Pt,
    pub expr: Ex,
}

/// A `let` binding.
pub struct LocalItem {
    pub pat: Pt,
    pub init: Option<Ex>,
}

/// The declared return type: the last segment of a path type (`None` for
/// no type or another kind of type), and whether its first generic
/// argument is the path `bool`.
pub struct ReturnShape {
    pub path_last: Option<String>,
    pub first_arg_is_bool: bool,
}

/// A function: its name, the line of its name, its return type, the paths
/// it calls and the methods it calls anywhere in its body, its `let`
/// bindings in order, and the expressions it returns (the tail, then each
/// `return` value).
pub struct FnShape {
    pub name: String,
    pub line: usize,
    pub returns: ReturnShape,
    pub called_paths: Vec<Vec<String>>,
    pub method_names: Vec<String>,
    pub locals: Vec<LocalItem>,
    pub decisions: Vec<Ex>,
}

/// An item of a source file, as far as the detector reads it.
pub enum ItemModel {
    /// A free function.
    Fn(FnShape),
    /// The functions of an `impl` block, in order.
    Impl(Vec<FnShape>),
    /// A module: its attributes (path and tokens of each) and, when written
    /// inline, its items.
    Mod(Vec<(String, String)>, Option<Vec<ItemModel>>),
    /// Any other item.
    Other,
}

/// A function that fired.
#[derive(Debug, PartialEq, Eq)]
pub struct Finding {
    pub function: String,
    pub line: usize,
}

/// What the taint of one function has gathered: the tainted and the
/// interpreted locals, the same-file functions with I/O and all same-file
/// functions.
pub struct TaintCtx {
    pub tainted: Vec<String>,
    pub interpreted: Vec<String>,
    pub io_fns: Vec<String>,
    pub same_file: Vec<String>,
}

// ---------------------------------------------------------------------------
// Specifications
// ---------------------------------------------------------------------------

/// Paths that are I/O by their ending.
pub open spec fn io_markers() -> Seq<Seq<char>> {
    seq![
        "Command::new"@,
        "fs::read_to_string"@,
        "fs::read"@,
        "fs::write"@,
        "fs::read_dir"@,
        "fs::metadata"@,
        "fs::create_dir_all"@,
        "fs::remove_file"@,
        "fs::rename"@,
        "fs::copy"@,
        "File::open"@,
        "File::create"@,
        "env::var"@,
    ]
}

/// Name prefixes of the subprocess helpers.
pub open spec fn io_prefixes() -> Seq<Seq<char>> {
    seq!["run_cmd"@, "run_gh"@, "run_jj"@]
}

/// Methods that only look at whether I/O succeeded.
pub open spec fn io_status_methods() -> Seq<Seq<char>> {
    seq!["success"@, "is_ok"@, "is_err"@, "is_some"@, "is_none"@]
}

/// The name starts with a subprocess helper's prefix.
pub open spec fn has_io_prefix(name: Seq<char>) -> bool {
    exists|k: int| 0 <= k < io_prefixes().len() && starts_with(name, #[trigger] io_prefixes()[k])
}

/// The path names an I/O function: its segments joined by `::` end with an
/// I/O marker, or its last segment starts with a helper's prefix.
pub open spec fn io_path(segs: Seq<Seq<char>>) -> bool {
    (exists|k: int|
        0 <= k < io_markers().len() && ends_with(join(segs, "::"@), #[trigger] io_markers()[k]))
        || (segs.len() > 0 && has_io_prefix(segs.last()))
}

/// The identifiers a pattern binds, in order.
pub open spec fn pat_idents(p: Pt) -> Seq<Seq<char>>
    decreases p,
{
    match p {
        Pt::Ident(n, sub) => seq![n@] + match sub {
            Some(s) => pat_idents(*s),
            None => seq![],
        },
        Pt::Group(ps) => pats_idents(ps@),
        Pt::Other => seq![],
    }
}

/// The identifiers of the patterns, in order.
pub open spec fn pats_idents(ps: Seq<Pt>) -> Seq<Seq<char>>
    decreases ps,
{
    if ps.len() == 0 {
        seq![]
    } else {
        pats_idents(ps.drop_last()) + pat_idents(ps.last())
    }
}

/// The segments of a callee that is a path.
pub open spec fn callee_path(f: Ex) -> Option<Seq<Seq<char>>> {
    match f {
        Ex::Path(segs, _) => Some(views(segs@)),
        _ => None,
    }
}

/// `Ok`, `Some` or `Err`: a constructor that only wraps its argument.
pub open spec fn wrapper_ctor(f: Ex) -> bool {
    match callee_path(f) {
        Some(segs) => segs.len() > 0 && (segs.last() == "Ok"@ || segs.last() == "Some"@
            || segs.last() == "Err"@),
        None => false,
    }
}

/// `e` carries I/O output: `t` are the tainted locals, `io` the same-file
/// functions with I/O, `same` all same-file functions, `extra` the names a
/// match arm or `if let` bound from a tainted value.
pub open spec fn tainted(
    t: Seq<Seq<char>>,
    io: Seq<Seq<char>>,
    same: Seq<Seq<char>>,
    extra: Seq<Seq<char>>,
    e: Ex,
) -> bool
    decreases e,
{
    match e {
        Ex::Path(_, ident) => match ident {
            Some(n) => t.contains(n@) || extra.contains(n@),
            None => false,
        },
        Ex::Call(f, args) => match callee_path(*f) {
            Some(segs) => if io_path(segs) {
                true
            } else if segs.len() > 0 && io.contains(segs.last()) {
                true
            } else if segs.len() > 0 && same.contains(segs.last()) {
                false
            } else {
                any_tainted(t, io, same, extra, args@, true)
            },
            None => any_tainted(t, io, same, extra, args@, true),
        },
        Ex::MethodCall(r, name, args) => if has_io_prefix(name@) {
            true
        } else {
            tainted(t, io, same, extra, *r) || any_tainted(t, io, same, extra, args@, true)
        },
        Ex::Closure(b) => tainted(t, io, same, extra, *b),
        Ex::Grouped(b) => tainted(t, io, same, extra, *b),
        Ex::Wrapped(b) => tainted(t, io, same, extra, *b),
        Ex::Both(l, r) => tainted(t, io, same, extra, *l) || tainted(t, io, same, extra, *r),
        Ex::Tuple(xs) => any_tainted(t, io, same, extra, xs@, false),
        Ex::Block(tail) => match tail {
            Some(x) => tainted(t, io, same, extra, *x),
            None => false,
        },
        Ex::Match(s, arms) => arms_tainted(
            t,
            io,
            same,
            extra,
            tainted(t, io, same, extra, *s),
            arms@,
        ),
        Ex::If(c, then_tail, els) => {
            (match then_tail {
                Some(x) => tainted(t, io, same, if_scope(t, io, same, extra, c), *x),
                None => false,
            }) || (match els {
                Some(x) => tainted(t, io, same, extra, *x),
                None => false,
            })
        },
        Ex::Other => false,
    }
}

/// The names in scope in the then branch of an `if`: those of an `if let`
/// whose value is tainted are added.
pub open spec fn if_scope(
    t: Seq<Seq<char>>,
    io: Seq<Seq<char>>,
    same: Seq<Seq<char>>,
    extra: Seq<Seq<char>>,
    c: Option<Box<LetCond>>,
) -> Seq<Seq<char>>
    decreases c,
{
    match c {
        Some(lc) => if tainted(t, io, same, extra, lc.expr) {
            extra + pat_idents(lc.pat)
        } else {
            extra
        },
        None => extra,
    }
}

/// Some expression of `xs` is tainted; closures are passed over when
/// `skip_closures`.
pub open spec fn any_tainted(
    t: Seq<Seq<char>>,
    io: Seq<Seq<char>>,
    same: Seq<Seq<char>>,
    extra: Seq<Seq<char>>,
    xs: Seq<Ex>,
    skip_closures: bool,
) -> bool
    decreases xs,
{
    if xs.len() == 0 {
        false
    } else {
        any_tainted(t, io, same, extra, xs.drop_last(), skip_closures) || (!(skip_closures
            && xs.last() is Closure) && tainted(t, io, same, extra, xs.last()))
    }
}

/// Some arm's body is tainted, its pattern's names added when the
/// scrutinee is.
pub open spec fn arms_tainted(
    t: Seq<Seq<char>>,
    io: Seq<Seq<char>>,
    same: Seq<Seq<char>>,
    extra: Seq<Seq<char>>,
    scrutinee: bool,
    arms: Seq<Arm>,
) -> bool
    decreases arms,
{
    if arms.len() == 0 {
        false
    } else {
        arms_tainted(t, io, same, extra, scrutinee, arms.drop_last()) || tainted(
            t,
            io,
            same,
            if scrutinee {
                extra + pat_idents(arms.last().pat)
            } else {
                extra
            },
            arms.last().body,
        )
    }
}

/// `e` interprets I/O output: `i` are the locals bound to an
/// interpretation. A tainted value passed on as it is, and a method that
/// only checks success, do not interpret.
pub open spec fn interprets(
    t: Seq<Seq<char>>,
    io: Seq<Seq<char>>,
    same: Seq<Seq<char>>,
    i: Seq<Seq<char>>,
    extra: Seq<Seq<char>>,
    e: Ex,
) -> bool
    decreases e,
{
    match e {
        Ex::Path(_, ident) => match ident {
            Some(n) => i.contains(n@),
            None => false,
        },
        Ex::Grouped(b) => interprets(t, io, same, i, extra, *b),
        Ex::MethodCall(_, name, _) => if io_status_methods().contains(name@) {
            false
        } else {
            tainted(t, io, same, extra, e)
        },
        Ex::Call(f, args) => if wrapper_ctor(*f) {
            any_interprets(t, io, same, i, extra, args@)
        } else {
            false
        },
        Ex::Match(s, arms) => arms_interpret(
            t,
            io,
            same,
            i,
            extra,
            tainted(t, io, same, extra, *s),
            arms@,
        ),
        Ex::If(c, then_tail, els) => {
            (match then_tail {
                Some(x) => interprets(t, io, same, i, if_scope(t, io, same, extra, c), *x),
                None => false,
            }) || (match els {
                Some(x) => interprets(t, io, same, i, extra, *x),
                None => false,
            })
        },
        Ex::Block(tail) => match tail {
            Some(x) => interprets(t, io, same, i, extra, *x),
            None => false,
        },
        _ => tainted(t, io, same, extra, e),
    }
}

/// Some expression of `xs` interprets.
pub open spec fn any_interprets(
    t: Seq<Seq<char>>,
    io: Seq<Seq<char>>,
    same: Seq<Seq<char>>,
    i: Seq<Seq<char>>,
    extra: Seq<Seq<char>>,
    xs: Seq<Ex>,
) -> bool
    decreases xs,
{
    if xs.len() == 0 {
        false
    } else {
        any_interprets(t, io, same, i, extra, xs.drop_last()) || interprets(
            t,
            io,
            same,
            i,
            extra,
            xs.last(),
        )
    }
}

/// Some arm's body interprets.
pub open spec fn arms_interpret(
    t: Seq<Seq<char>>,
    io: Seq<Seq<char>>,
    same: Seq<Seq<char>>,
    i: Seq<Seq<char>>,
    extra: Seq<Seq<char>>,
    scrutinee: bool,
    arms: Seq<Arm>,
) -> bool
    decreases arms,
{
    if arms.len() == 0 {
        false
    } else {
        arms_interpret(t, io, same, i, extra, scrutinee, arms.drop_last()) || interprets(
            t,
            io,
            same,
            i,
            if scrutinee {
                extra + pat_idents(arms.last().pat)
            } else {
                extra
            },
            arms.last().body,
        )
    }
}

/// The tainted and the interpreted locals after the bindings, in order: a
/// binding whose value is tainted taints its names, and when the value
/// interprets they are interpreted too.
pub open spec fn taint_after(io: Seq<Seq<char>>, same: Seq<Seq<char>>, ls: Seq<LocalItem>) -> (
    Seq<Seq<char>>,
    Seq<Seq<char>>,
)
    decreases ls.len(),
{
    if ls.len() == 0 {
        (seq![], seq![])
    } else {
        let (t, i) = taint_after(io, same, ls.drop_last());
        match ls.last().init {
            None => (t, i),
            Some(x) => if !tainted(t, io, same, seq![], x) {
                (t, i)
            } else {
                let ids = pat_idents(ls.last().pat);
                (
                    t + ids,
                    if interprets(t, io, same, i, seq![], x) {
                        i + ids
                    } else {
                        i
                    },
                )
            },
        }
    }
}

/// The function decides from I/O output in place: one of its returned
/// expressions interprets, with the taint of all its bindings.
pub open spec fn decides_inline(
    io: Seq<Seq<char>>,
    same: Seq<Seq<char>>,
    ls: Seq<LocalItem>,
    ds: Seq<Ex>,
) -> bool {
    let (t, i) = taint_after(io, same, ls);
    exists|k: int| 0 <= k < ds.len() && interprets(t, io, same, i, seq![], #[trigger] ds[k])
}

/// `bool`, or `Option` / `Result` of `bool`.
pub open spec fn bool_decision(r: ReturnShape) -> bool {
    match r.path_last {
        Some(n) => n@ == "bool"@ || ((n@ == "Option"@ || n@ == "Result"@) && r.first_arg_is_bool),
        None => false,
    }
}

/// The function's body does I/O itself.
pub open spec fn direct_io(f: FnShape) -> bool {
    (exists|k: int| 0 <= k < f.called_paths@.len() && io_path(views(#[trigger] f.called_paths@[k]@)))
        || (exists|k: int|
        0 <= k < f.method_names@.len() && has_io_prefix(#[trigger] f.method_names@[k]@))
}

/// The names of the functions.
pub open spec fn fn_names(fs: Seq<FnShape>) -> Seq<Seq<char>> {
    fs.map_values(|f: FnShape| f.name@)
}

/// The names of the functions that do I/O themselves.
pub open spec fn io_fn_names(fs: Seq<FnShape>) -> Seq<Seq<char>>
    decreases fs.len(),
{
    if fs.len() == 0 {
        seq![]
    } else if direct_io(fs.last()) {
        io_fn_names(fs.drop_last()).push(fs.last().name@)
    } else {
        io_fn_names(fs.drop_last())
    }
}

/// The function fires among the functions of its file.
pub open spec fn fires(fs: Seq<FnShape>, f: FnShape) -> bool {
    bool_decision(f.returns) && decides_inline(io_fn_names(fs), fn_names(fs), f.locals@, f.decisions@)
}

/// The findings of the functions that fire, in file order.
pub open spec fn fired(fs: Seq<FnShape>, prefix: Seq<FnShape>) -> Seq<(Seq<char>, usize)>
    decreases prefix.len(),
{
    if prefix.len() == 0 {
        seq![]
    } else if fires(fs, prefix.last()) {
        fired(fs, prefix.drop_last()).push((prefix.last().name@, prefix.last().line))
    } else {
        fired(fs, prefix.drop_last())
    }
}

/// The findings as values.
pub open spec fn finding_views(r: Seq<Finding>) -> Seq<(Seq<char>, usize)> {
    r.map_values(|f: Finding| (f.function@, f.line))
}

// ---------------------------------------------------------------------------
// Executable functions
// ---------------------------------------------------------------------------

/// Whether `name` is in `names`.
fn contains_name(names: &Vec<String>, name: &str) -> (b: bool)
    ensures
        b == views(names@).contains(name@),
{
    let nv = chars_of(name);
    let mut k: usize = 0;
    while k < names.len()
        invariant
            k <= names@.len(),
            nv@ == name@,
            forall|j: int| 0 <= j < k ==> views(names@)[j] != name@,
        decreases names@.len() - k,
    {
        let cv = chars_of(names[k].as_str());
        if chars_eq(&cv, &nv) {
            assert(views(names@)[k as int] == name@);
            return true;
        }
        k += 1;
    }
    false
}

/// Whether the name starts with a subprocess helper's prefix.
pub fn is_io_helper_name(name: &str) -> (b: bool)
    ensures
        b == has_io_prefix(name@),
{
    let v = chars_of(name);
    assert(v@.subrange(0, v@.len() as int) == v@);
    let a = chars_of("run_cmd");
    let b = chars_of("run_gh");
    let c = chars_of("run_jj");
    let r = span_starts_with(&v, 0, v.len(), &a) || span_starts_with(&v, 0, v.len(), &b)
        || span_starts_with(&v, 0, v.len(), &c);
    proof {
        if starts_with(name@, io_prefixes()[0]) || starts_with(name@, io_prefixes()[1])
            || starts_with(name@, io_prefixes()[2]) {
        }
    }
    r
}

/// Whether a path names an I/O function.
pub fn is_io_path(segments: &Vec<String>) -> (b: bool)
    ensures
        b == io_path(views(segments@)),
{
    let joined = join_strings(segments.as_slice(), "::");
    let jv = chars_of(joined.as_str());
    assert(jv@.subrange(0, jv@.len() as int) == jv@);
    let markers: [&str; 13] = [
        "Command::new",
        "fs::read_to_string",
        "fs::read",
        "fs::write",
        "fs::read_dir",
        "fs::metadata",
        "fs::create_dir_all",
        "fs::remove_file",
        "fs::rename",
        "fs::copy",
        "File::open",
        "File::create",
        "env::var",
    ];
    assert(markers@.len() == io_markers().len());
    let mut k: usize = 0;
    while k < 13
        invariant
            k <= 13,
            jv@ == join(views(segments@), "::"@),
            jv@.subrange(0, jv@.len() as int) == jv@,
            markers@.len() == 13,
            forall|j: int| 0 <= j < 13 ==> (#[trigger] markers@[j])@ == io_markers()[j],
            forall|j: int| 0 <= j < k ==> !ends_with(jv@, #[trigger] io_markers()[j]),
        decreases 13 - k,
    {
        let m: &str = markers[k];
        assert(m@ == io_markers()[k as int]);
        let mv = chars_of(m);
        if span_ends_with(&jv, 0, jv.len(), &mv) {
            assert(ends_with(jv@, io_markers()[k as int]));
            return true;
        }
        k += 1;
    }
    if segments.len() == 0 {
        return false;
    }
    let r = is_io_helper_name(segments[segments.len() - 1].as_str());
    assert(views(segments@).last() == segments@[segments@.len() - 1]@);
    r
}

/// Whether a method only checks that I/O succeeded.
fn is_io_status_method(name: &str) -> (b: bool)
    ensures
        b == io_status_methods().contains(name@),
{
    let v = chars_of(name);
    let names: [&str; 5] = ["success", "is_ok", "is_err", "is_some", "is_none"];
    let mut k: usize = 0;
    while k < 5
        invariant
            k <= 5,
            v@ == name@,
            forall|j: int| 0 <= j < 5 ==> (#[trigger] names@[j])@ == io_status_methods()[j],
            forall|j: int| 0 <= j < k ==> io_status_methods()[j] != name@,
        decreases 5 - k,
    {
        let m: &str = names[k];
        assert(m@ == io_status_methods()[k as int]);
        let mv = chars_of(m);
        if chars_eq(&mv, &v) {
            assert(io_status_methods()[k as int] == name@);
            return true;
        }
        k += 1;
    }
    false
}

/// Appends the identifiers a pattern binds.
pub fn collect_pat_idents(p: &Pt, out: &mut Vec<String>)
    ensures
        views(final(out)@) == views(old(out)@) + pat_idents(*p),
    decreases p,
{
    match p {
        Pt::Ident(n, sub) => {
            let ghost before = out@;
            out.push(owned(n.as_str()));
            assert(views(out@) == views(before) + seq![n@]);
            match sub {
                Some(s) => {
                    collect_pat_idents(s, out);
                },
                None => {},
            }
        },
        Pt::Group(ps) => {
            collect_pats_idents(ps, out);
        },
        Pt::Other => {},
    }
}

/// Appends the identifiers the patterns bind, in order.
fn collect_pats_idents(ps: &Vec<Pt>, out: &mut Vec<String>)
    ensures
        views(final(out)@) == views(old(out)@) + pats_idents(ps@),
    decreases ps@,
{
    let ghost start = views(out@);
    let mut k: usize = 0;
    while k < ps.len()
        invariant
            k <= ps@.len(),
            views(out@) == start + pats_idents(ps@.subrange(0, k as int)),
        decreases ps@.len() - k,
    {
        collect_pat_idents(&ps[k], out);
        assert(ps@.subrange(0, k + 1).drop_last() == ps@.subrange(0, k as int));
        k += 1;
    }
    assert(ps@.subrange(0, ps@.len() as int) == ps@);
}

/// `extra` with the identifiers of `p` when `add`.
fn scoped(extra: &Vec<String>, add: bool, p: &Pt) -> (r: Vec<String>)
    ensures
        views(r@) == if add {
            views(extra@) + pat_idents(*p)
        } else {
            views(extra@)
        },
{
    let mut r: Vec<String> = Vec::new();
    let mut k: usize = 0;
    while k < extra.len()
        invariant
            k <= extra@.len(),
            views(r@) == views(extra@).subrange(0, k as int),
        decreases extra@.len() - k,
    {
        let ghost before = r@;
        r.push(owned(extra[k].as_str()));
        assert(views(r@) =~= views(before).push(extra@[k as int]@));
        assert(views(extra@).subrange(0, k + 1) =~= views(extra@).subrange(0, k as int).push(
            extra@[k as int]@,
        ));
        k += 1;
    }
    assert(views(extra@).subrange(0, extra@.len() as int) == views(extra@));
    if add {
        collect_pat_idents(p, &mut r);
    }
    r
}

/// The spec values of the context's name lists.
pub open spec fn cx_t(cx: TaintCtx) -> Seq<Seq<char>> {
    views(cx.tainted@)
}

pub open spec fn cx_i(cx: TaintCtx) -> Seq<Seq<char>> {
    views(cx.interpreted@)
}

pub open spec fn cx_io(cx: TaintCtx) -> Seq<Seq<char>> {
    views(cx.io_fns@)
}

pub open spec fn cx_same(cx: TaintCtx) -> Seq<Seq<char>> {
    views(cx.same_file@)
}

/// Whether `e` carries I/O output.
pub fn is_tainted_with(cx: &TaintCtx, extra: &Vec<String>, e: &Ex) -> (b: bool)
    ensures
        b == tainted(cx_t(*cx), cx_io(*cx), cx_same(*cx), views(extra@), *e),
    decreases e,
{
    match e {
        Ex::Path(_, ident) => match ident {
            Some(n) => contains_name(&cx.tainted, n.as_str()) || contains_name(extra, n.as_str()),
            None => false,
        },
        Ex::Call(f, args) => {
            match &**f {
                Ex::Path(segs, _) => {
                    if is_io_path(segs) {
                        return true;
                    }
                    if segs.len() > 0 {
                        let last = segs[segs.len() - 1].as_str();
                        assert(views(segs@).last() == segs@[segs@.len() - 1]@);
                        if contains_name(&cx.io_fns, last) {
                            return true;
                        }
                        if contains_name(&cx.same_file, last) {
                            return false;
                        }
                    }
                },
                _ => {},
            }
            any_tainted_exec(cx, extra, args, true)
        },
        Ex::MethodCall(r, name, args) => {
            if is_io_helper_name(name.as_str()) {
                return true;
            }
            is_tainted_with(cx, extra, r) || any_tainted_exec(cx, extra, args, true)
        },
        Ex::Closure(b) => is_tainted_with(cx, extra, b),
        Ex::Grouped(b) => is_tainted_with(cx, extra, b),
        Ex::Wrapped(b) => is_tainted_with(cx, extra, b),
        Ex::Both(l, r) => is_tainted_with(cx, extra, l) || is_tainted_with(cx, extra, r),
        Ex::Tuple(xs) => any_tainted_exec(cx, extra, xs, false),
        Ex::Block(tail) => match tail {
            Some(x) => is_tainted_with(cx, extra, x),
            None => false,
        },
        Ex::Match(s, arms) => {
            let st = is_tainted_with(cx, extra, s);
            arms_tainted_exec(cx, extra, st, arms)
        },
        Ex::If(c, then_tail, els) => {
            let sc = if_scope_exec(cx, extra, c);
            let a = match then_tail {
                Some(x) => is_tainted_with(cx, &sc, x),
                None => false,
            };
            a || match els {
                Some(x) => is_tainted_with(cx, extra, x),
                None => false,
            }
        },
        Ex::Other => false,
    }
}

/// The names in scope in the then branch of an `if`.
fn if_scope_exec(cx: &TaintCtx, extra: &Vec<String>, c: &Option<Box<LetCond>>) -> (r: Vec<String>)
    ensures
        views(r@) == if_scope(cx_t(*cx), cx_io(*cx), cx_same(*cx), views(extra@), *c),
    decreases c,
{
    match c {
        Some(lc) => {
            let add = is_tainted_with(cx, extra, &lc.expr);
            scoped(extra, add, &lc.pat)
        },
        None => scoped(extra, false, &Pt::Other),
    }
}

/// Whether some expression of `xs` carries I/O output.
fn any_tainted_exec(cx: &TaintCtx, extra: &Vec<String>, xs: &Vec<Ex>, skip_closures: bool) -> (b:
    bool)
    ensures
        b == any_tainted(cx_t(*cx), cx_io(*cx), cx_same(*cx), views(extra@), xs@, skip_closures),
    decreases xs@,
{
    let mut k: usize = 0;
    while k < xs.len()
        invariant
            k <= xs@.len(),
            !any_tainted(
                cx_t(*cx),
                cx_io(*cx),
                cx_same(*cx),
                views(extra@),
                xs@.subrange(0, k as int),
                skip_closures,
            ),
        decreases xs@.len() - k,
    {
        assert(xs@.subrange(0, k + 1).drop_last() == xs@.subrange(0, k as int));
        let skip = skip_closures && match &xs[k] {
            Ex::Closure(_) => true,
            _ => false,
        };
        if !skip && is_tainted_with(cx, extra, &xs[k]) {
            proof {
                lemma_any_tainted_prefix(
                    cx_t(*cx),
                    cx_io(*cx),
                    cx_same(*cx),
                    views(extra@),
                    xs@,
                    skip_closures,
                    k + 1,
                );
            }
            return true;
        }
        k += 1;
    }
    assert(xs@.subrange(0, xs@.len() as int) == xs@);
    false
}

/// Whether some arm's body carries I/O output.
fn arms_tainted_exec(cx: &TaintCtx, extra: &Vec<String>, scrutinee: bool, arms: &Vec<Arm>) -> (b:
    bool)
    ensures
        b == arms_tainted(cx_t(*cx), cx_io(*cx), cx_same(*cx), views(extra@), scrutinee, arms@),
    decreases arms@,
{
    let mut k: usize = 0;
    while k < arms.len()
        invariant
            k <= arms@.len(),
            !arms_tainted(
                cx_t(*cx),
                cx_io(*cx),
                cx_same(*cx),
                views(extra@),
                scrutinee,
                arms@.subrange(0, k as int),
            ),
        decreases arms@.len() - k,
    {
        assert(arms@.subrange(0, k + 1).drop_last() == arms@.subrange(0, k as int));
        let sc = scoped(extra, scrutinee, &arms[k].pat);
        if is_tainted_with(cx, &sc, &arms[k].body) {
            proof {
                lemma_arms_tainted_prefix(
                    cx_t(*cx),
                    cx_io(*cx),
                    cx_same(*cx),
                    views(extra@),
                    scrutinee,
                    arms@,
                    k + 1,
                );
            }
            return true;
        }
        k += 1;
    }
    assert(arms@.subrange(0, arms@.len() as int) == arms@);
    false
}

/// Once some prefix has a tainted expression, every longer one has.
proof fn lemma_any_tainted_prefix(
    t: Seq<Seq<char>>,
    io: Seq<Seq<char>>,
    same: Seq<Seq<char>>,
    extra: Seq<Seq<char>>,
    xs: Seq<Ex>,
    skip: bool,
    n: int,
)
    requires
        0 <= n <= xs.len(),
        any_tainted(t, io, same, extra, xs.subrange(0, n), skip),
    ensures
        any_tainted(t, io, same, extra, xs, skip),
    decreases xs.len() - n,
{
    if n < xs.len() {
        assert(xs.subrange(0, n + 1).drop_last() == xs.subrange(0, n));
        lemma_any_tainted_prefix(t, io, same, extra, xs, skip, n + 1);
    } else {
        assert(xs.subrange(0, n) == xs);
    }
}

/// Once some prefix has a tainted arm, every longer one has.
proof fn lemma_arms_tainted_prefix(
    t: Seq<Seq<char>>,
    io: Seq<Seq<char>>,
    same: Seq<Seq<char>>,
    extra: Seq<Seq<char>>,
    scrutinee: bool,
    arms: Seq<Arm>,
    n: int,
)
    requires
        0 <= n <= arms.len(),
        arms_tainted(t, io, same, extra, scrutinee, arms.subrange(0, n)),
    ensures
        arms_tainted(t, io, same, extra, scrutinee, arms),
    decreases arms.len() - n,
{
    if n < arms.len() {
        assert(arms.subrange(0, n + 1).drop_last() == arms.subrange(0, n));
        lemma_arms_tainted_prefix(t, io, same, extra, scrutinee, arms, n + 1);
    } else {
        assert(arms.subrange(0, n) == arms);
    }
}

/// Whether `e` interprets I/O output.
pub fn is_interpretation_with(cx: &TaintCtx, extra: &Vec<String>, e: &Ex) -> (b: bool)
    ensures
        b == interprets(cx_t(*cx), cx_io(*cx), cx_same(*cx), cx_i(*cx), views(extra@), *e),
    decreases e,
{
    match e {
        Ex::Path(_, ident) => match ident {
            Some(n) => contains_name(&cx.interpreted, n.as_str()),
            None => false,
        },
        Ex::Grouped(b) => is_interpretation_with(cx, extra, b),
        Ex::MethodCall(_, name, _) => {
            if is_io_status_method(name.as_str()) {
                false
            } else {
                is_tainted_with(cx, extra, e)
            }
        },
        Ex::Call(f, args) => {
            let wraps = match &**f {
                Ex::Path(segs, _) => {
                    if segs.len() > 0 {
                        let last = chars_of(segs[segs.len() - 1].as_str());
                        assert(views(segs@).last() == segs@[segs@.len() - 1]@);
                        chars_eq(&last, &chars_of("Ok")) || chars_eq(&last, &chars_of("Some"))
                            || chars_eq(&last, &chars_of("Err"))
                    } else {
                        false
                    }
                },
                _ => false,
            };
            if wraps {
                any_interprets_exec(cx, extra, args)
            } else {
                false
            }
        },
        Ex::Match(s, arms) => {
            let st = is_tainted_with(cx, extra, s);
            arms_interpret_exec(cx, extra, st, arms)
        },
        Ex::If(c, then_tail, els) => {
            let sc = if_scope_exec(cx, extra, c);
            let a = match then_tail {
                Some(x) => is_interpretation_with(cx, &sc, x),
                None => false,
            };
            a || match els {
                Some(x) => is_interpretation_with(cx, extra, x),
                None => false,
            }
        },
        Ex::Block(tail) => match tail {
            Some(x) => is_interpretation_with(cx, extra, x),
            None => false,
        },
        _ => is_tainted_with(cx, extra, e),
    }
}

/// Whether some expression of `xs` interprets.
fn any_interprets_exec(cx: &TaintCtx, extra: &Vec<String>, xs: &Vec<Ex>) -> (b: bool)
    ensures
        b == any_interprets(cx_t(*cx), cx_io(*cx), cx_same(*cx), cx_i(*cx), views(extra@), xs@),
    decreases xs@,
{
    let mut k: usize = 0;
    while k < xs.len()
        invariant
            k <= xs@.len(),
            !any_interprets(
                cx_t(*cx),
                cx_io(*cx),
                cx_same(*cx),
                cx_i(*cx),
                views(extra@),
                xs@.subrange(0, k as int),
            ),
        decreases xs@.len() - k,
    {
        assert(xs@.subrange(0, k + 1).drop_last() == xs@.subrange(0, k as int));
        if is_interpretation_with(cx, extra, &xs[k]) {
            proof {
                lemma_any_interprets_prefix(
                    cx_t(*cx),
                    cx_io(*cx),
                    cx_same(*cx),
                    cx_i(*cx),
                    views(extra@),
                    xs@,
                    k + 1,
                );
            }
            return true;
        }
        k += 1;
    }
    assert(xs@.subrange(0, xs@.len() as int) == xs@);
    false
}

/// Whether some arm's body interprets.
fn arms_interpret_exec(cx: &TaintCtx, extra: &Vec<String>, scrutinee: bool, arms: &Vec<Arm>) -> (b:
    bool)
    ensures
        b == arms_interpret(
            cx_t(*cx),
            cx_io(*cx),
            cx_same(*cx),
            cx_i(*cx),
            views(extra@),
            scrutinee,
            arms@,
        ),
    decreases arms@,
{
    let mut k: usize = 0;
    while k < arms.len()
        invariant
            k <= arms@.len(),
            !arms_interpret(
                cx_t(*cx),
                cx_io(*cx),
                cx_same(*cx),
                cx_i(*cx),
                views(extra@),
                scrutinee,
                arms@.subrange(0, k as int),
            ),
        decreases arms@.len() - k,
    {
        assert(arms@.subrange(0, k + 1).drop_last() == arms@.subrange(0, k as int));
        let sc = scoped(extra, scrutinee, &arms[k].pat);
        if is_interpretation_with(cx, &sc, &arms[k].body) {
            proof {
                lemma_arms_interpret_prefix(
                    cx_t(*cx),
                    cx_io(*cx),
                    cx_same(*cx),
                    cx_i(*cx),
                    views(extra@),
                    scrutinee,
                    arms@,
                    k + 1,
                );
            }
            return true;
        }
        k += 1;
    }
    assert(arms@.subrange(0, arms@.len() as int) == arms@);
    false
}

/// Once some prefix has an interpreting expression, every longer one has.
proof fn lemma_any_interprets_prefix(
    t: Seq<Seq<char>>,
    io: Seq<Seq<char>>,
    same: Seq<Seq<char>>,
    i: Seq<Seq<char>>,
    extra: Seq<Seq<char>>,
    xs: Seq<Ex>,
    n: int,
)
    requires
        0 <= n <= xs.len(),
        any_interprets(t, io, same, i, extra, xs.subrange(0, n)),
    ensures
        any_interprets(t, io, same, i, extra, xs),
    decreases xs.len() - n,
{
    if n < xs.len() {
        assert(xs.subrange(0, n + 1).drop_last() == xs.subrange(0, n));
        lemma_any_interprets_prefix(t, io, same, i, extra, xs, n + 1);
    } else {
        assert(xs.subrange(0, n) == xs);
    }
}

/// Once some prefix has an interpreting arm, every longer one has.
proof fn lemma_arms_interpret_prefix(
    t: Seq<Seq<char>>,
    io: Seq<Seq<char>>,
    same: Seq<Seq<char>>,
    i: Seq<Seq<char>>,
    extra: Seq<Seq<char>>,
    scrutinee: bool,
    arms: Seq<Arm>,
    n: int,
)
    requires
        0 <= n <= arms.len(),
        arms_interpret(t, io, same, i, extra, scrutinee, arms.subrange(0, n)),
    ensures
        arms_interpret(t, io, same, i, extra, scrutinee, arms),
    decreases arms.len() - n,
{
    if n < arms.len() {
        assert(arms.subrange(0, n + 1).drop_last() == arms.subrange(0, n));
        lemma_arms_interpret_prefix(t, io, same, i, extra, scrutinee, arms, n + 1);
    } else {
        assert(arms.subrange(0, n) == arms);
    }
}

/// Whether the function decides from I/O output in place, given the
/// same-file functions with I/O and all same-file functions: the taint of
/// its bindings is gathered in order, then its returned expressions are
/// checked.
pub fn decides_from_inline_io(
    locals: &Vec<LocalItem>,
    decisions: &Vec<Ex>,
    io_fns: &Vec<String>,
    same_file: &Vec<String>,
) -> (b: bool)
    ensures
        b == decides_inline(views(io_fns@), views(same_file@), locals@, decisions@),
{
    let ghost io = views(io_fns@);
    let ghost same = views(same_file@);
    let mut cx = TaintCtx {
        tainted: Vec::new(),
        interpreted: Vec::new(),
        io_fns: scoped(io_fns, false, &Pt::Other),
        same_file: scoped(same_file, false, &Pt::Other),
    };
    let empty: Vec<String> = Vec::new();
    assert(views(empty@) =~= Seq::<Seq<char>>::empty());
    assert(locals@.subrange(0, 0) =~= Seq::<LocalItem>::empty());
    let mut k: usize = 0;
    while k < locals.len()
        invariant
            k <= locals@.len(),
            views(empty@) == Seq::<Seq<char>>::empty(),
            cx_io(cx) == io,
            cx_same(cx) == same,
            (cx_t(cx), cx_i(cx)) == taint_after(io, same, locals@.subrange(0, k as int)),
        decreases locals@.len() - k,
    {
        assert(locals@.subrange(0, k + 1).drop_last() == locals@.subrange(0, k as int));
        assert(locals@.subrange(0, k + 1).last() == locals@[k as int]);
        match &locals[k].init {
            None => {},
            Some(x) => {
                if is_tainted_with(&cx, &empty, x) {
                    let interp = is_interpretation_with(&cx, &empty, x);
                    let ghost t0 = cx_t(cx);
                    let ghost i0 = cx_i(cx);
                    if interp {
                        collect_pat_idents(&locals[k].pat, &mut cx.interpreted);
                    }
                    collect_pat_idents(&locals[k].pat, &mut cx.tainted);
                    assert(cx_t(cx) == t0 + pat_idents(locals@[k as int].pat));
                }
            },
        }
        k += 1;
    }
    assert(locals@.subrange(0, locals@.len() as int) == locals@);
    let mut d: usize = 0;
    while d < decisions.len()
        invariant
            d <= decisions@.len(),
            io == views(io_fns@),
            same == views(same_file@),
            views(empty@) == Seq::<Seq<char>>::empty(),
            cx_io(cx) == io,
            cx_same(cx) == same,
            (cx_t(cx), cx_i(cx)) == taint_after(io, same, locals@),
            forall|j: int|
                0 <= j < d ==> !interprets(
                    cx_t(cx),
                    io,
                    same,
                    cx_i(cx),
                    seq![],
                    #[trigger] decisions@[j],
                ),
        decreases decisions@.len() - d,
    {
        if is_interpretation_with(&cx, &empty, &decisions[d]) {
            assert(interprets(cx_t(cx), io, same, cx_i(cx), seq![], decisions@[d as int]));
            return true;
        }
        d += 1;
    }
    false
}

/// Whether a declared return type is a `bool` decision: `bool`, or
/// `Option` / `Result` whose first argument is `bool`.
pub fn returns_bool_decision(r: &ReturnShape) -> (b: bool)
    ensures
        b == bool_decision(*r),
{
    match &r.path_last {
        None => false,
        Some(n) => {
            let v = chars_of(n.as_str());
            if chars_eq(&v, &chars_of("bool")) {
                return true;
            }
            (chars_eq(&v, &chars_of("Option")) || chars_eq(&v, &chars_of("Result")))
                && r.first_arg_is_bool
        },
    }
}

/// Whether the function's body does I/O itself.
pub fn block_has_direct_io(f: &FnShape) -> (b: bool)
    ensures
        b == direct_io(*f),
{
    let mut k: usize = 0;
    while k < f.called_paths.len()
        invariant
            k <= f.called_paths@.len(),
            forall|j: int| 0 <= j < k ==> !io_path(views(#[trigger] f.called_paths@[j]@)),
        decreases f.called_paths@.len() - k,
    {
        if is_io_path(&f.called_paths[k]) {
            return true;
        }
        k += 1;
    }
    let mut m: usize = 0;
    while m < f.method_names.len()
        invariant
            m <= f.method_names@.len(),
            forall|j: int| 0 <= j < f.called_paths@.len() ==> !io_path(
                views(#[trigger] f.called_paths@[j]@),
            ),
            forall|j: int| 0 <= j < m ==> !has_io_prefix(#[trigger] f.method_names@[j]@),
        decreases f.method_names@.len() - m,
    {
        if is_io_helper_name(f.method_names[m].as_str()) {
            return true;
        }
        m += 1;
    }
    false
}

/// The attributes hold a `#[cfg(..)]` that mentions `test`.
pub open spec fn cfg_test(attrs: Seq<(String, String)>) -> bool {
    exists|k: int|
        0 <= k < attrs.len() && (#[trigger] attrs[k]).0@ == "cfg"@ && crate::text::contains(
            attrs[k].1@,
            "test"@,
        )
}

/// The functions of an item that the detector reads: a function, the
/// functions of an `impl`, and those of an inline module that is not test
/// code (`#[cfg(..test..)]`), in order.
pub open spec fn item_fns(i: ItemModel) -> Seq<FnShape>
    decreases i,
{
    match i {
        ItemModel::Fn(f) => seq![f],
        ItemModel::Impl(fs) => fs@,
        ItemModel::Mod(attrs, items) => if cfg_test(attrs@) {
            seq![]
        } else {
            match items {
                Some(v) => items_fns(v@),
                None => seq![],
            }
        },
        ItemModel::Other => seq![],
    }
}

/// The functions of the items, in order.
pub open spec fn items_fns(is: Seq<ItemModel>) -> Seq<FnShape>
    decreases is,
{
    if is.len() == 0 {
        seq![]
    } else {
        items_fns(is.drop_last()) + item_fns(is.last())
    }
}

/// The findings of a source file's items, ordered by line.
pub open spec fn items_findings(is: Seq<ItemModel>) -> Seq<(Seq<char>, usize)> {
    line_sorted(fired(items_fns(is), items_fns(is)))
}

/// Appends the functions of an item that the detector reads.
pub fn collect_item_fns(item: ItemModel, out: &mut Vec<FnShape>)
    ensures
        final(out)@ == old(out)@ + item_fns(item),
    decreases item,
{
    match item {
        ItemModel::Fn(f) => {
            out.push(f);
        },
        ItemModel::Impl(fs) => {
            let mut fs = fs;
            let ghost before = out@;
            let ghost all = fs@;
            out.append(&mut fs);
            assert(out@ == before + all);
        },
        ItemModel::Mod(attrs, items) => {
            if !has_cfg_test(&attrs) {
                match items {
                    Some(v) => {
                        collect_items_fns(v, out);
                    },
                    None => {},
                }
            }
        },
        ItemModel::Other => {},
    }
}

/// Appends the functions of the items that the detector reads, in order.
pub fn collect_items_fns(items: Vec<ItemModel>, out: &mut Vec<FnShape>)
    ensures
        final(out)@ == old(out)@ + items_fns(items@),
    decreases items@,
{
    let ghost orig = items@;
    let ghost start = out@;
    let mut rest = items;
    let ghost mut k: int = 0;
    while rest.len() > 0
        invariant
            0 <= k <= orig.len(),
            rest@ == orig.skip(k),
            k + rest@.len() == orig.len(),
            orig == items@,
            out@ == start + items_fns(orig.take(k)),
        decreases rest@.len(),
    {
        let ghost before = rest@;
        assert(before[0] == orig[k]);
        let item = rest.remove(0);
        assert(item == before[0]);
        assert(rest@ =~= orig.skip(k + 1));
        proof {
            assert(decreases_to!(orig => orig[k]));
        }
        collect_item_fns(item, out);
        assert(orig.take(k + 1).drop_last() == orig.take(k));
        assert(orig.take(k + 1).last() == orig[k]);
        proof {
            k = k + 1;
        }
        assert(rest@ == orig.skip(k));
    }
    assert(orig.take(k) == orig);
}

/// The findings of a source file's items: the functions that decide a
/// `bool` from I/O output in place, as (name, line) ordered by line.
pub fn scan_items(items: Vec<ItemModel>) -> (r: Vec<Finding>)
    ensures
        finding_views(r@) == items_findings(items@),
{
    let ghost is = items@;
    let mut fns: Vec<FnShape> = Vec::new();
    collect_items_fns(items, &mut fns);
    assert(fns@ == items_fns(is));
    scan_functions(&fns)
}

/// Whether a module's attributes (path and tokens of each) hold a
/// `#[cfg(..)]` that mentions `test`.
pub fn has_cfg_test(attrs: &Vec<(String, String)>) -> (b: bool)
    ensures
        b == cfg_test(attrs@),
{
    let cfg = chars_of("cfg");
    let test = chars_of("test");
    let mut k: usize = 0;
    while k < attrs.len()
        invariant
            k <= attrs@.len(),
            cfg@ == "cfg"@,
            test@ == "test"@,
            forall|j: int|
                0 <= j < k ==> !((#[trigger] attrs@[j]).0@ == "cfg"@ && crate::text::contains(
                    attrs@[j].1@,
                    "test"@,
                )),
        decreases attrs@.len() - k,
    {
        let p = chars_of(attrs[k].0.as_str());
        let t = chars_of(attrs[k].1.as_str());
        assert(t@.subrange(0, t@.len() as int) == t@);
        if chars_eq(&p, &cfg) && crate::text::find_from_exec(&t, t.len(), &test, 0).is_some() {
            return true;
        }
        k += 1;
    }
    false
}

/// The lines are in order.
pub open spec fn sorted_by_line(s: Seq<(Seq<char>, usize)>) -> bool {
    forall|i: int, j: int| 0 <= i < j < s.len() ==> s[i].1 <= s[j].1
}

/// The first index from `i` on whose line is above `l` (the length when
/// there is none).
pub open spec fn first_above(s: Seq<(Seq<char>, usize)>, l: usize, i: int) -> int
    decreases s.len() - i,
{
    if i < 0 || i >= s.len() || s[i].1 > l {
        i
    } else {
        first_above(s, l, i + 1)
    }
}

/// The findings ordered by line, those on one line in the order they came
/// (a stable sort by line).
pub open spec fn line_sorted(fs: Seq<(Seq<char>, usize)>) -> Seq<(Seq<char>, usize)>
    decreases fs.len(),
{
    if fs.len() == 0 {
        seq![]
    } else {
        let s = line_sorted(fs.drop_last());
        s.insert(first_above(s, fs.last().1, 0), fs.last())
    }
}

/// The names of all functions and of those that do I/O themselves.
fn file_names(fns: &Vec<FnShape>) -> (r: (Vec<String>, Vec<String>))
    ensures
        views(r.0@) == fn_names(fns@),
        views(r.1@) == io_fn_names(fns@),
{
    let mut names: Vec<String> = Vec::new();
    let mut io: Vec<String> = Vec::new();
    let mut k: usize = 0;
    while k < fns.len()
        invariant
            k <= fns@.len(),
            views(names@) == fn_names(fns@.subrange(0, k as int)),
            views(io@) == io_fn_names(fns@.subrange(0, k as int)),
        decreases fns@.len() - k,
    {
        let f = &fns[k];
        let ghost sub = fns@.subrange(0, k + 1);
        assert(sub.drop_last() == fns@.subrange(0, k as int));
        assert(sub.last() == fns@[k as int]);
        let ghost before = names@;
        names.push(owned(f.name.as_str()));
        assert(views(names@) =~= views(before).push(f.name@));
        assert(fn_names(sub) =~= fn_names(fns@.subrange(0, k as int)).push(f.name@));
        if block_has_direct_io(f) {
            let ghost before_io = io@;
            io.push(owned(f.name.as_str()));
            assert(views(io@) =~= views(before_io).push(f.name@));
        }
        k += 1;
    }
    assert(fns@.subrange(0, fns@.len() as int) == fns@);
    (names, io)
}

/// The functions of a file that decide a `bool` from I/O output in place,
/// as (name, line) findings ordered by line.
pub fn scan_functions(fns: &Vec<FnShape>) -> (r: Vec<Finding>)
    ensures
        sorted_by_line(finding_views(r@)),
        finding_views(r@).to_multiset() == fired(fns@, fns@).to_multiset(),
        finding_views(r@) == line_sorted(fired(fns@, fns@)),
{
    let (names, io) = file_names(fns);
    let mut found: Vec<Finding> = Vec::new();
    let mut k: usize = 0;
    while k < fns.len()
        invariant
            k <= fns@.len(),
            views(names@) == fn_names(fns@),
            views(io@) == io_fn_names(fns@),
            finding_views(found@) == fired(fns@, fns@.subrange(0, k as int)),
        decreases fns@.len() - k,
    {
        let f = &fns[k];
        let ghost sub = fns@.subrange(0, k + 1);
        assert(sub.drop_last() == fns@.subrange(0, k as int));
        assert(sub.last() == fns@[k as int]);
        if returns_bool_decision(&f.returns) && decides_from_inline_io(
            &f.locals,
            &f.decisions,
            &io,
            &names,
        ) {
            let ghost before = found@;
            found.push(Finding { function: owned(f.name.as_str()), line: f.line });
            assert(finding_views(found@) =~= finding_views(before).push((f.name@, f.line)));
        }
        k += 1;
    }
    assert(fns@.subrange(0, fns@.len() as int) == fns@);
    let mut out: Vec<Finding> = Vec::new();
    assert(finding_views(out@) =~= finding_views(found@).subrange(0, 0));
    let mut i: usize = 0;
    while i < found.len()
        invariant
            i <= found@.len(),
            sorted_by_line(finding_views(out@)),
            finding_views(out@).to_multiset() == finding_views(found@).subrange(
                0,
                i as int,
            ).to_multiset(),
            finding_views(out@) == line_sorted(finding_views(found@).subrange(0, i as int)),
        decreases found@.len() - i,
    {
        let line = found[i].line;
        let mut p: usize = 0;
        while p < out.len() && out[p].line <= line
            invariant
                p <= out@.len(),
                forall|j: int| 0 <= j < p ==> (#[trigger] out@[j]).line <= line,
                first_above(finding_views(out@), line, 0) == first_above(
                    finding_views(out@),
                    line,
                    p as int,
                ),
            decreases out@.len() - p,
        {
            p += 1;
        }
        proof {
            assert(first_above(finding_views(out@), line, p as int) == p as int);
            let fv0 = finding_views(found@);
            assert(fv0.subrange(0, i + 1).drop_last() =~= fv0.subrange(0, i as int));
            assert(fv0.subrange(0, i + 1).last() == fv0[i as int]);
        }
        let ghost before = finding_views(out@);
        let x = Finding { function: owned(found[i].function.as_str()), line };
        let ghost xv = (x.function@, x.line);
        out.insert(p, x);
        proof {
            assert(finding_views(out@) =~= before.insert(p as int, xv));
            vstd::seq_lib::to_multiset_insert(before, p as int, xv);
            let fv = finding_views(found@);
            assert(fv.subrange(0, i + 1) =~= fv.subrange(0, i as int).push(fv[i as int]));
            vstd::seq_lib::to_multiset_build(fv.subrange(0, i as int), fv[i as int]);
            assert(fv[i as int] == xv);
            assert forall|a: int, b: int|
                0 <= a < b < finding_views(out@).len() implies finding_views(out@)[a].1
                <= finding_views(out@)[b].1 by {
                if b < p {
                } else if b == p {
                    assert(finding_views(out@)[a] == before[a]);
                } else if a < p {
                    assert(finding_views(out@)[b] == before[b - 1]);
                    assert(finding_views(out@)[a] == before[a]);
                    if p < before.len() {
                        assert(before[p as int].1 > line);
                    }
                } else if a == p {
                    assert(finding_views(out@)[b] == before[b - 1]);
                    assert(before[p as int].1 > line);
                    assert(before[p as int].1 <= before[b - 1].1 || p == b - 1);
                } else {
                    assert(finding_views(out@)[b] == before[b - 1]);
                    assert(finding_views(out@)[a] == before[a - 1]);
                }
            }
        }
        i += 1;
    }
    assert(finding_views(found@).subrange(0, found@.len() as int) == finding_views(found@));
    out
}

// ---------------------------------------------------------------------------
// Laws
// ---------------------------------------------------------------------------

proof fn lemma_join_ends_with_pair(pre: Seq<Seq<char>>, a: Seq<char>, b: Seq<char>)
    ensures
        ends_with(join(pre + seq![a, b], "::"@), a + "::"@ + b),
{
    let all = pre + seq![a, b];
    let sep = "::"@;
    assert(all.drop_last() =~= pre + seq![a]);
    assert(all.last() == b);
    let front = join(pre + seq![a], sep);
    let x = if pre.len() == 0 {
        seq![]
    } else {
        join(pre, sep) + sep
    };
    if pre.len() == 0 {
        assert((pre + seq![a]) =~= seq![a]);
        assert(front =~= x + a);
    } else {
        assert((pre + seq![a]).drop_last() =~= pre);
        assert(front =~= x + a);
    }
    let s = join(all, sep);
    assert(s =~= x + (a + sep + b));
    let suf = a + sep + b;
    assert(s.subrange(s.len() - suf.len(), s.len() as int) =~= suf);
}

proof fn lemma_marker_path(pre: Seq<Seq<char>>, a: Seq<char>, b: Seq<char>, k: int)
    requires
        0 <= k < io_markers().len(),
        io_markers()[k] == a + "::"@ + b,
    ensures
        io_path(pre + seq![a, b]),
{
    lemma_join_ends_with_pair(pre, a, b);
}

/// Every call whose path ends in one of the I/O functions the detector
/// knows reads or writes the outside world: `Command::new`, the `fs`
/// functions that read, write, list, inspect, create, remove, rename or
/// copy, `File::open`, `File::create` and `env::var`, whatever comes
/// before them (`std::env::var`, `env::var`, `std::fs::read`, ...).
pub proof fn lemma_io_paths_are_recognised(pre: Seq<Seq<char>>)
    ensures
        io_path(pre + seq!["Command"@, "new"@]),
        io_path(pre + seq!["fs"@, "read_to_string"@]),
        io_path(pre + seq!["fs"@, "read"@]),
        io_path(pre + seq!["fs"@, "write"@]),
        io_path(pre + seq!["fs"@, "read_dir"@]),
        io_path(pre + seq!["fs"@, "metadata"@]),
        io_path(pre + seq!["fs"@, "create_dir_all"@]),
        io_path(pre + seq!["fs"@, "remove_file"@]),
        io_path(pre + seq!["fs"@, "rename"@]),
        io_path(pre + seq!["fs"@, "copy"@]),
        io_path(pre + seq!["File"@, "open"@]),
        io_path(pre + seq!["File"@, "create"@]),
        io_path(pre + seq!["env"@, "var"@]),
{
    reveal_strlit("::");
    reveal_strlit("Command");
    reveal_strlit("new");
    reveal_strlit("Command::new");
    assert(io_markers()[0] =~= "Command"@ + "::"@ + "new"@);
    lemma_marker_path(pre, "Command"@, "new"@, 0);
    reveal_strlit("fs");
    reveal_strlit("read_to_string");
    reveal_strlit("fs::read_to_string");
    assert(io_markers()[1] =~= "fs"@ + "::"@ + "read_to_string"@);
    lemma_marker_path(pre, "fs"@, "read_to_string"@, 1);
    reveal_strlit("fs");
    reveal_strlit("read");
    reveal_strlit("fs::read");
    assert(io_markers()[2] =~= "fs"@ + "::"@ + "read"@);
    lemma_marker_path(pre, "fs"@, "read"@, 2);
    reveal_strlit("fs");
    reveal_strlit("write");
    reveal_strlit("fs::write");
    assert(io_markers()[3] =~= "fs"@ + "::"@ + "write"@);
    lemma_marker_path(pre, "fs"@, "write"@, 3);
    reveal_strlit("fs");
    reveal_strlit("read_dir");
    reveal_strlit("fs::read_dir");
    assert(io_markers()[4] =~= "fs"@ + "::"@ + "read_dir"@);
    lemma_marker_path(pre, "fs"@, "read_dir"@, 4);
    reveal_strlit("fs");
    reveal_strlit("metadata");
    reveal_strlit("fs::metadata");
    assert(io_markers()[5] =~= "fs"@ + "::"@ + "metadata"@);
    lemma_marker_path(pre, "fs"@, "metadata"@, 5);
    reveal_strlit("fs");
    reveal_strlit("create_dir_all");
    reveal_strlit("fs::create_dir_all");
    assert(io_markers()[6] =~= "fs"@ + "::"@ + "create_dir_all"@);
    lemma_marker_path(pre, "fs"@, "create_dir_all"@, 6);
    reveal_strlit("fs");
    reveal_strlit("remove_file");
    reveal_strlit("fs::remove_file");
    assert(io_markers()[7] =~= "fs"@ + "::"@ + "remove_file"@);
    lemma_marker_path(pre, "fs"@, "remove_file"@, 7);
    reveal_strlit("fs");
    reveal_strlit("rename");
    reveal_strlit("fs::rename");
    assert(io_markers()[8] =~= "fs"@ + "::"@ + "rename"@);
    lemma_marker_path(pre, "fs"@, "rename"@, 8);
    reveal_strlit("fs");
    reveal_strlit("copy");
    reveal_strlit("fs::copy");
    assert(io_markers()[9] =~= "fs"@ + "::"@ + "copy"@);
    lemma_marker_path(pre, "fs"@, "copy"@, 9);
    reveal_strlit("File");
    reveal_strlit("open");
    reveal_strlit("File::open");
    assert(io_markers()[10] =~= "File"@ + "::"@ + "open"@);
    lemma_marker_path(pre, "File"@, "open"@, 10);
    reveal_strlit("File");
    reveal_strlit("create");
    reveal_strlit("File::create");
    assert(io_markers()[11] =~= "File"@ + "::"@ + "create"@);
    lemma_marker_path(pre, "File"@, "create"@, 11);
    reveal_strlit("env");
    reveal_strlit("var");
    reveal_strlit("env::var");
    assert(io_markers()[12] =~= "env"@ + "::"@ + "var"@);
    lemma_marker_path(pre, "env"@, "var"@, 12);
}

/// Handing the interpretation to another function passes: a function
/// whose returned expressions are all calls of functions other than the
/// `Ok` / `Some` / `Err` wrappers never fires, whatever it binds.
pub proof fn lemma_delegating_never_fires(
    io: Seq<Seq<char>>,
    same: Seq<Seq<char>>,
    ls: Seq<LocalItem>,
    ds: Seq<Ex>,
)
    requires
        forall|k: int|
            0 <= k < ds.len() ==> (#[trigger] ds[k] matches Ex::Call(f, _) && !wrapper_ctor(*f)),
    ensures
        !decides_inline(io, same, ls, ds),
{
}

/// Checking only whether I/O succeeded passes: a returned `.success()`,
/// `.is_ok()`, `.is_err()`, `.is_some()` or `.is_none()` never interprets.
pub proof fn lemma_status_checks_never_interpret(
    t: Seq<Seq<char>>,
    io: Seq<Seq<char>>,
    same: Seq<Seq<char>>,
    i: Seq<Seq<char>>,
    extra: Seq<Seq<char>>,
    r: Box<Ex>,
    name: String,
    args: Vec<Ex>,
)
    requires
        io_status_methods().contains(name@),
    ensures
        !interprets(t, io, same, i, extra, Ex::MethodCall(r, name, args)),
{
}

/// The taint stops at a same-file function without I/O: calling one is
/// never tainted, whatever its arguments carry, unless its path is an I/O
/// path.
pub proof fn lemma_pure_same_file_call_stops_taint(
    t: Seq<Seq<char>>,
    io: Seq<Seq<char>>,
    same: Seq<Seq<char>>,
    extra: Seq<Seq<char>>,
    segs: Vec<String>,
    ident: Option<String>,
    args: Vec<Ex>,
)
    requires
        segs@.len() > 0,
        !io_path(views(segs@)),
        !io.contains(segs@.last()@),
        same.contains(segs@.last()@),
    ensures
        !tainted(t, io, same, extra, Ex::Call(Box::new(Ex::Path(segs, ident)), args)),
{
    assert(views(segs@).last() == segs@.last()@);
}

} // verus!
