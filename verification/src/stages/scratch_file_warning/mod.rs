//! Scratch-file check on the files of the commit about to be pushed.
//!
//! Two layers find scratch files: name patterns (`__*` by default, matched on
//! the base name in any directory), and placement (a script extension at the
//! repository root, whatever its name). The violations of both are merged
//! without repeating a file.
pub mod glob;

use vstd::prelude::*;

use crate::config::scratch_file_warning::ScratchFileWarningConfig;
use crate::text::{
    append_new, lemma_append_new_contains, lemma_append_new_no_dups,
    chars_eq, chars_of, last_index_before, lines, lower, lower_span, owned, rfind_char,
    split_lines, string_of_span, trim, trim_span, trimmed_nonempty, trimmed_nonempty_strings,
    views, vviews,
};
use glob::{contains_char, glob_matches, matches_glob};

verus! {

// ---------------------------------------------------------------------------
// Specifications
// ---------------------------------------------------------------------------

/// A path separator (`/`, or `\` as jj prints paths on Windows).
pub open spec fn is_sep(c: char) -> bool {
    c == '/' || c == '\\'
}

/// Index of the last separator strictly before `j`.
pub open spec fn last_sep(s: Seq<char>, j: int) -> Option<int>
    decreases j,
{
    if j <= 0 || j > s.len() {
        None
    } else if is_sep(s[j - 1]) {
        Some(j - 1)
    } else {
        last_sep(s, j - 1)
    }
}

/// The part of a path after its last separator (all of it when there is none).
pub open spec fn basename(path: Seq<char>) -> Seq<char> {
    match last_sep(path, path.len() as int) {
        Some(i) => path.skip(i + 1),
        None => path,
    }
}

/// A path with no separator, i.e. a file at the repository root.
pub open spec fn is_root(path: Seq<char>) -> bool {
    !path.contains('/') && !path.contains('\\')
}

/// The extensions of scripts that have no place at the repository root.
pub open spec fn is_script_ext(ext: Seq<char>) -> bool {
    ext == "py"@ || ext == "sh"@ || ext == "ps1"@ || ext == "rb"@ || ext == "pl"@
}

/// The text after the last `.` of `name` is, in ASCII lowercase, a script extension.
pub open spec fn script_extension(name: Seq<char>) -> bool {
    match last_index_before(name, '.', name.len() as int) {
        Some(i) => is_script_ext(lower(name.skip(i + 1))),
        None => false,
    }
}

/// A root-level script that the allow-list does not name.
pub open spec fn is_root_script(path: Seq<char>, allow: Seq<Seq<char>>) -> bool {
    is_root(path) && script_extension(basename(path)) && !allow.contains(basename(path))
}

/// The files caught by the placement layer, in order.
pub open spec fn root_scripts(files: Seq<Seq<char>>, allow: Seq<Seq<char>>) -> Seq<Seq<char>> {
    files.filter(|f: Seq<char>| is_root_script(f, allow))
}

/// Some pattern matches `name`.
pub open spec fn matches_any(name: Seq<char>, patterns: Seq<Seq<char>>) -> bool {
    exists|k: int| 0 <= k < patterns.len() && glob_matches(name, #[trigger] patterns[k])
}

/// The files whose base name some pattern matches, in order.
pub open spec fn pattern_hits(files: Seq<Seq<char>>, patterns: Seq<Seq<char>>) -> Seq<Seq<char>> {
    files.filter(|f: Seq<char>| matches_any(basename(f), patterns))
}

/// Both layers' violations, without repeats added by the second.
pub open spec fn violations(
    files: Seq<Seq<char>>,
    patterns: Seq<Seq<char>>,
    allow: Seq<Seq<char>>,
) -> Seq<Seq<char>> {
    append_new(pattern_hits(files, patterns), root_scripts(files, allow))
}

/// The views of an optional list of strings (none: the empty list).
pub open spec fn opt_views(o: Option<Vec<String>>) -> Seq<Seq<char>> {
    match o {
        Some(v) => views(v@),
        None => seq![],
    }
}

/// The name patterns in force: the configured ones, trimmed and without
/// blanks, or `__*` when that leaves none.
pub open spec fn patterns_in_force(config: Option<ScratchFileWarningConfig>) -> Seq<Seq<char>> {
    let configured = match config {
        Some(c) => trimmed_nonempty(opt_views(c.patterns)),
        None => seq![],
    };
    if configured.len() == 0 {
        seq!["__*"@]
    } else {
        configured
    }
}

/// The root allow-list in force: the configured names, trimmed and without blanks.
pub open spec fn allowlist_in_force(config: Option<ScratchFileWarningConfig>) -> Seq<Seq<char>> {
    match config {
        Some(c) => trimmed_nonempty(opt_views(c.root_script_allowlist)),
        None => seq![],
    }
}

/// An override value that means "yes".
pub open spec fn is_truthy(v: Seq<char>) -> bool {
    v == "1"@ || v == "true"@ || v == "yes"@ || v == "on"@
}

/// The override variable is set to a "yes" (trimmed, any ASCII case).
pub open spec fn override_active(raw: Option<Seq<char>>) -> bool {
    match raw {
        Some(v) => is_truthy(lower(trim(v))),
        None => false,
    }
}

/// The view of an optional string slice.
pub open spec fn opt_str_view(raw: Option<&str>) -> Option<Seq<char>> {
    match raw {
        Some(v) => Some(v@),
        None => None,
    }
}

// ---------------------------------------------------------------------------
// Laws
// ---------------------------------------------------------------------------

proof fn lemma_filter_no_dups(s: Seq<Seq<char>>, pred: spec_fn(Seq<char>) -> bool)
    requires
        s.no_duplicates(),
    ensures
        s.filter(pred).no_duplicates(),
    decreases s.len(),
{
    reveal_with_fuel(Seq::filter, 1);
    if s.len() > 0 {
        let d = s.drop_last();
        assert(d.no_duplicates()) by {
            assert forall|i: int, j: int| 0 <= i < d.len() && 0 <= j < d.len() && i != j implies d[i]
                != d[j] by {
                assert(s[i] == d[i] && s[j] == d[j]);
            }
        }
        lemma_filter_no_dups(d, pred);
        let f = d.filter(pred);
        if pred(s.last()) {
            assert(!f.contains(s.last())) by {
                if f.contains(s.last()) {
                    d.lemma_filter_contains_rev(pred, s.last());
                    let i = choose|i: int| 0 <= i < d.len() && d[i] == s.last();
                    assert(s[i] == s[s.len() - 1]);
                }
            }
            let p = f.push(s.last());
            assert forall|i: int, j: int| 0 <= i < p.len() && 0 <= j < p.len() && i != j implies p[i]
                != p[j] by {
                if i == f.len() {
                    assert(f[j] == p[j]);
                    assert(f.contains(p[j]));
                } else if j == f.len() {
                    assert(f[i] == p[i]);
                    assert(f.contains(p[i]));
                }
            }
        }
    }
}

/// A file is reported exactly when one of the two layers catches it: its
/// base name matches a pattern, or it is a root-level script that the
/// allow-list does not name.
pub proof fn lemma_violations_are_both_layers(
    files: Seq<Seq<char>>,
    patterns: Seq<Seq<char>>,
    allow: Seq<Seq<char>>,
    x: Seq<char>,
)
    ensures
        violations(files, patterns, allow).contains(x) <==> files.contains(x) && (matches_any(
            basename(x),
            patterns,
        ) || is_root_script(x, allow)),
{
    let pf = |f: Seq<char>| matches_any(basename(f), patterns);
    let rf = |f: Seq<char>| is_root_script(f, allow);
    lemma_append_new_contains(pattern_hits(files, patterns), root_scripts(files, allow), x);
    if files.contains(x) {
        let i = choose|i: int| 0 <= i < files.len() && files[i] == x;
        if pf(x) {
            files.lemma_filter_contains(pf, i);
        }
        if rf(x) {
            files.lemma_filter_contains(rf, i);
        }
    }
    if pattern_hits(files, patterns).contains(x) {
        files.lemma_filter_contains_rev(pf, x);
    }
    if root_scripts(files, allow).contains(x) {
        files.lemma_filter_contains_rev(rf, x);
    }
}

proof fn lemma_last_dot_of_extension(stem: Seq<char>, ext: Seq<char>, j: int)
    requires
        !ext.contains('.'),
        stem.len() < j <= stem.len() + 1 + ext.len(),
    ensures
        last_index_before(stem + "."@ + ext, '.', j) == Some(stem.len() as int),
    decreases j,
{
    reveal_strlit(".");
    let name = stem + "."@ + ext;
    assert(name.len() == stem.len() + 1 + ext.len());
    assert(name[stem.len() as int] == '.');
    if j > stem.len() + 1 {
        assert(name[j - 1] == ext[j - 1 - stem.len() - 1]);
        assert(name[j - 1] != '.');
        lemma_last_dot_of_extension(stem, ext, j - 1);
    }
}

/// A name is a script exactly when the text after its last `.` is, in ASCII
/// lowercase, `py`, `sh`, `ps1`, `rb` or `pl`; a name without a `.` is none.
pub proof fn lemma_script_extensions(stem: Seq<char>, ext: Seq<char>)
    ensures
        !ext.contains('.') ==> (script_extension(stem + "."@ + ext) <==> (lower(ext) == "py"@
            || lower(ext) == "sh"@ || lower(ext) == "ps1"@ || lower(ext) == "rb"@ || lower(ext)
            == "pl"@)),
        !stem.contains('.') ==> !script_extension(stem),
{
    if !ext.contains('.') {
        let name = stem + "."@ + ext;
        assert(name.len() == stem.len() + 1 + ext.len()) by {
            reveal_strlit(".");
        }
        lemma_last_dot_of_extension(stem, ext, name.len() as int);
        assert(name.skip(stem.len() + 1 as int) =~= ext) by {
            reveal_strlit(".");
        }
    }
    if !stem.contains('.') {
        lemma_no_dot(stem, stem.len() as int);
    }
}

proof fn lemma_no_dot(s: Seq<char>, j: int)
    requires
        !s.contains('.'),
        j <= s.len(),
    ensures
        last_index_before(s, '.', j) is None,
    decreases j,
{
    if j > 0 {
        assert(s[j - 1] != '.');
        lemma_no_dot(s, j - 1);
    }
}

/// A file listed once is reported at most once, however many layers and
/// patterns catch it.
pub proof fn lemma_violations_no_repeats(
    files: Seq<Seq<char>>,
    patterns: Seq<Seq<char>>,
    allow: Seq<Seq<char>>,
)
    requires
        files.no_duplicates(),
    ensures
        violations(files, patterns, allow).no_duplicates(),
{
    lemma_filter_no_dups(files, |f: Seq<char>| matches_any(basename(f), patterns));
    lemma_append_new_no_dups(pattern_hits(files, patterns), root_scripts(files, allow));
}

// ---------------------------------------------------------------------------
// Executable functions
// ---------------------------------------------------------------------------

/// The file paths in `jj file list` output: one per line, trimmed, blank
/// lines dropped.
pub fn parse_file_list_output(raw: &str) -> (r: Vec<String>)
    ensures
        views(r@) == trimmed_nonempty(lines(raw@)),
{
    let ls = split_lines(raw);
    let ghost ln = lines(raw@);
    let mut r: Vec<String> = Vec::new();
    let mut i: usize = 0;
    while i < ls.len()
        invariant
            i <= ls@.len(),
            ln == vviews(ls@),
            views(r@) == trimmed_nonempty(ln.take(i as int)),
        decreases ls@.len() - i,
    {
        let l = &ls[i];
        let (a, b) = trim_span(l.as_slice(), 0, l.len());
        proof {
            assert(l@.subrange(0, l@.len() as int) == l@);
            assert(ln.take(i + 1).drop_last() == ln.take(i as int));
            assert(ln.take(i + 1).last() == l@);
        }
        if a < b {
            let t = string_of_span(l.as_slice(), a, b);
            let ghost before = r@;
            r.push(t);
            assert(views(r@) == views(before).push(t@));
        }
        i += 1;
    }
    assert(ln.take(ls@.len() as int) == ln);
    r
}

/// The part of `path` after its last `/` or `\`.
pub fn extract_basename(path: &str) -> (r: String)
    ensures
        r@ == basename(path@),
{
    let v = chars_of(path);
    let mut j: usize = v.len();
    while j > 0
        invariant
            j <= v@.len(),
            v@ == path@,
            last_sep(v@, v@.len() as int) == last_sep(v@, j as int),
        decreases j,
    {
        if v[j - 1] == '/' || v[j - 1] == '\\' {
            assert(v@.skip(j as int) == v@.subrange(j as int, v@.len() as int));
            return string_of_span(&v, j, v.len());
        }
        j -= 1;
    }
    assert(v@.subrange(0, v@.len() as int) == v@);
    string_of_span(&v, 0, v.len())
}

/// Whether `path` names a file at the repository root (no `/`, no `\`).
pub fn is_root_level(path: &str) -> (b: bool)
    ensures
        b == is_root(path@),
{
    let v = chars_of(path);
    !contains_char(&v, '/') && !contains_char(&v, '\\')
}

/// Whether `name` ends in a script extension (`py`, `sh`, `ps1`, `rb`, `pl`),
/// in any ASCII case.
pub fn has_script_extension(name: &str) -> (b: bool)
    ensures
        b == script_extension(name@),
{
    let v = chars_of(name);
    assert(v@.subrange(0, v@.len() as int) == v@);
    match rfind_char(&v, 0, v.len(), '.') {
        None => false,
        Some(k) => {
            let ext = lower_span(&v, k + 1, v.len());
            assert(v@.subrange(k + 1, v@.len() as int) == v@.skip(k + 1));
            let py = chars_of("py");
            let sh = chars_of("sh");
            let ps1 = chars_of("ps1");
            let rb = chars_of("rb");
            let pl = chars_of("pl");
            chars_eq(&ext, &py) || chars_eq(&ext, &sh) || chars_eq(&ext, &ps1) || chars_eq(
                &ext,
                &rb,
            ) || chars_eq(&ext, &pl)
        },
    }
}

/// Whether `list` holds `s`.
fn list_contains(list: &[String], s: &String) -> (b: bool)
    ensures
        b == views(list@).contains(s@),
{
    let mut k: usize = 0;
    while k < list.len()
        invariant
            k <= list@.len(),
            forall|j: int| 0 <= j < k ==> list@[j]@ != s@,
        decreases list@.len() - k,
    {
        if list[k] == *s {
            assert(views(list@)[k as int] == s@);
            return true;
        }
        k += 1;
    }
    proof {
        if views(list@).contains(s@) {
            let j = choose|j: int| 0 <= j < views(list@).len() && views(list@)[j] == s@;
            assert(list@[j]@ == s@);
        }
    }
    false
}

/// The files at the repository root with a script extension that the
/// allow-list does not name, in order.
pub fn root_script_violations(files: &[String], allowlist: &[String]) -> (r: Vec<String>)
    ensures
        views(r@) == root_scripts(views(files@), views(allowlist@)),
{
    let ghost fs = views(files@);
    let ghost al = views(allowlist@);
    let ghost pred = |f: Seq<char>| is_root_script(f, al);
    let mut r: Vec<String> = Vec::new();
    let mut i: usize = 0;
    while i < files.len()
        invariant
            i <= files@.len(),
            fs == views(files@),
            al == views(allowlist@),
            pred == (|f: Seq<char>| is_root_script(f, al)),
            views(r@) == fs.take(i as int).filter(pred),
        decreases files@.len() - i,
    {
        let file = &files[i];
        let name = extract_basename(file.as_str());
        let hit = is_root_level(file.as_str()) && has_script_extension(name.as_str())
            && !list_contains(allowlist, &name);
        proof {
            assert(fs.take(i + 1).drop_last() == fs.take(i as int));
            assert(fs.take(i + 1).last() == file@);
            assert(hit == pred(file@));
            assert(fs.take(i + 1).filter(pred) == if pred(file@) {
                fs.take(i as int).filter(pred).push(file@)
            } else {
                fs.take(i as int).filter(pred)
            }) by {
                reveal_with_fuel(Seq::filter, 1);
            }
        }
        if hit {
            let ghost before = r@;
            r.push(file.clone());
            assert(views(r@) == views(before).push(file@));
        }
        i += 1;
    }
    assert(fs.take(files@.len() as int) == fs);
    r
}

/// Whether some pattern matches `name`.
fn any_pattern_matches(name: &str, patterns: &[String]) -> (b: bool)
    ensures
        b == matches_any(name@, views(patterns@)),
{
    let mut k: usize = 0;
    while k < patterns.len()
        invariant
            k <= patterns@.len(),
            forall|j: int| 0 <= j < k ==> !glob_matches(name@, #[trigger] views(patterns@)[j]),
        decreases patterns@.len() - k,
    {
        if matches_glob(name, patterns[k].as_str()) {
            assert(glob_matches(name@, views(patterns@)[k as int]));
            return true;
        }
        k += 1;
    }
    false
}

/// The files whose base name matches one of the patterns, each once, in order.
pub fn find_violations(files: &[String], patterns: &[String]) -> (r: Vec<String>)
    ensures
        views(r@) == pattern_hits(views(files@), views(patterns@)),
{
    let ghost fs = views(files@);
    let ghost ps = views(patterns@);
    let ghost pred = |f: Seq<char>| matches_any(basename(f), ps);
    let mut r: Vec<String> = Vec::new();
    let mut i: usize = 0;
    while i < files.len()
        invariant
            i <= files@.len(),
            fs == views(files@),
            ps == views(patterns@),
            pred == (|f: Seq<char>| matches_any(basename(f), ps)),
            views(r@) == fs.take(i as int).filter(pred),
        decreases files@.len() - i,
    {
        let file = &files[i];
        let name = extract_basename(file.as_str());
        let hit = any_pattern_matches(name.as_str(), patterns);
        proof {
            assert(fs.take(i + 1).drop_last() == fs.take(i as int));
            assert(fs.take(i + 1).last() == file@);
            assert(fs.take(i + 1).filter(pred) == if pred(file@) {
                fs.take(i as int).filter(pred).push(file@)
            } else {
                fs.take(i as int).filter(pred)
            }) by {
                reveal_with_fuel(Seq::filter, 1);
            }
        }
        if hit {
            let ghost before = r@;
            r.push(file.clone());
            assert(views(r@) == views(before).push(file@));
        }
        i += 1;
    }
    assert(fs.take(files@.len() as int) == fs);
    r
}

/// The violations of both layers: the pattern hits, then the root-level
/// scripts that are not among them yet.
pub fn all_violations(files: &[String], patterns: &[String], root_allowlist: &[String]) -> (r: Vec<
    String,
>)
    ensures
        views(r@) == violations(views(files@), views(patterns@), views(root_allowlist@)),
{
    let mut r = find_violations(files, patterns);
    let extra = root_script_violations(files, root_allowlist);
    let ghost acc = views(r@);
    let ghost xs = views(extra@);
    let mut k: usize = 0;
    while k < extra.len()
        invariant
            k <= extra@.len(),
            xs == views(extra@),
            views(r@) == append_new(acc, xs.take(k as int)),
        decreases extra@.len() - k,
    {
        let file = &extra[k];
        proof {
            assert(xs.take(k + 1).drop_last() == xs.take(k as int));
            assert(xs.take(k + 1).last() == file@);
        }
        if !list_contains(r.as_slice(), file) {
            let ghost before = r@;
            r.push(file.clone());
            assert(views(r@) == views(before).push(file@));
        }
        k += 1;
    }
    assert(xs.take(extra@.len() as int) == xs);
    r
}

/// The root allow-list in force.
pub fn effective_root_allowlist(config: Option<&ScratchFileWarningConfig>) -> (r: Vec<String>)
    ensures
        views(r@) == allowlist_in_force(
            match config {
                Some(c) => Some(*c),
                None => None,
            },
        ),
{
    match config {
        Some(c) => match &c.root_script_allowlist {
            Some(list) => trimmed_nonempty_strings(list),
            None => Vec::new(),
        },
        None => Vec::new(),
    }
}

/// The name patterns in force.
pub fn effective_patterns(config: Option<&ScratchFileWarningConfig>) -> (r: Vec<String>)
    ensures
        views(r@) == patterns_in_force(
            match config {
                Some(c) => Some(*c),
                None => None,
            },
        ),
{
    let configured: Vec<String> = match config {
        Some(c) => match &c.patterns {
            Some(list) => trimmed_nonempty_strings(list),
            None => Vec::new(),
        },
        None => Vec::new(),
    };
    if configured.len() == 0 {
        let mut d: Vec<String> = Vec::new();
        d.push(owned("__*"));
        assert(views(d@) == seq!["__*"@]);
        d
    } else {
        configured
    }
}

/// Whether the override variable's value turns the block off: `1`, `true`,
/// `yes` or `on`, trimmed and in any ASCII case.
pub fn parse_override_env(raw: Option<&str>) -> (b: bool)
    ensures
        b == override_active(opt_str_view(raw)),
{
    match raw {
        None => false,
        Some(value) => {
            let v = chars_of(value);
            let (a, z) = trim_span(&v, 0, v.len());
            assert(v@.subrange(0, v@.len() as int) == v@);
            let low = lower_span(&v, a, z);
            let one = chars_of("1");
            let t = chars_of("true");
            let y = chars_of("yes");
            let on = chars_of("on");
            chars_eq(&low, &one) || chars_eq(&low, &t) || chars_eq(&low, &y) || chars_eq(&low, &on)
        },
    }
}

/// Whether the push may go on after the check found `violations`: when it
/// found none, or when the override is active.
pub fn scratch_check_passes(violations: &[String], override_raw: Option<&str>) -> (b: bool)
    ensures
        b == (violations@.len() == 0 || override_active(opt_str_view(override_raw))),
{
    violations.len() == 0 || parse_override_env(override_raw)
}

/// The view of an optional config reference.
pub open spec fn opt_config(config: Option<&ScratchFileWarningConfig>) -> Option<ScratchFileWarningConfig> {
    match config {
        Some(c) => Some(*c),
        None => None,
    }
}

/// The check runs only when the section says `enabled = true`.
pub open spec fn check_enabled(config: Option<ScratchFileWarningConfig>) -> bool {
    match config {
        Some(c) => c.enabled == Some(true),
        None => false,
    }
}

/// Whether the push may go on. `file_list` gives the output of
/// `jj file list` for `@`. The check is off unless enabled; a listing
/// that fails lets the push go on (fail-open); else the push goes on when
/// no file is a scratch candidate, or when the override is set.
pub fn run_scratch_file_warning<F: FnOnce() -> Result<String, String>>(
    config: Option<&ScratchFileWarningConfig>,
    file_list: F,
    override_raw: Option<&str>,
) -> (b: bool)
    requires
        call_requires(file_list, ()),
    ensures
        !check_enabled(opt_config(config)) ==> b,
        check_enabled(opt_config(config)) ==> exists|out: Result<String, String>|
            call_ensures(file_list, (), out) && b == match out {
                Err(_) => true,
                Ok(raw) => violations(
                    trimmed_nonempty(lines(raw@)),
                    patterns_in_force(opt_config(config)),
                    allowlist_in_force(opt_config(config)),
                ).len() == 0 || override_active(opt_str_view(override_raw)),
            },
{
    let enabled = match config {
        Some(c) => match c.enabled {
            Some(e) => e,
            None => false,
        },
        None => false,
    };
    if !enabled {
        return true;
    }
    let patterns = effective_patterns(config);
    let out = file_list();
    let ghost out_g = out;
    assert(call_ensures(file_list, (), out_g));
    let raw = match out {
        Err(_) => {
            return true;
        },
        Ok(raw) => raw,
    };
    let files = parse_file_list_output(raw.as_str());
    let allow = effective_root_allowlist(config);
    let found = all_violations(files.as_slice(), patterns.as_slice(), allow.as_slice());
    scratch_check_passes(found.as_slice(), override_raw)
}

} // verus!
