//! Push stage: the push command names the bookmarks that the bookmark check
//! found (`-b <name>` each), so that a push never carries another
//! workspace's bookmarks; and a push that jj refused while exiting 0 is
//! still reported as a failure.
use vstd::prelude::*;

use crate::config::{PushConfig, DEFAULT_PUSH_TIMEOUT_SECS};
use crate::text::{
    append_str, chars_of, contains, find_from_exec, is_ws, is_whitespace, lemma_find_from, lower,
    lower_char, lower_span, occurs_at, owned, span_eq, span_starts_with, starts_with, string_of,
    views,
};

verus! {

// ---------------------------------------------------------------------------
// Specifications
// ---------------------------------------------------------------------------

/// `s[i..j]` is a whitespace-separated token of `s` (what `split_whitespace` yields).
pub open spec fn is_token(s: Seq<char>, i: int, j: int) -> bool {
    &&& 0 <= i < j <= s.len()
    &&& (i == 0 || is_ws(s[i - 1]))
    &&& (j == s.len() || is_ws(s[j]))
    &&& forall|k: int| i <= k < j ==> !is_ws(#[trigger] s[k])
}

/// The token is `flag`, or `flag=` followed by a value.
pub open spec fn flag_match(t: Seq<char>, flag: Seq<char>) -> bool {
    t == flag || starts_with(t, flag + seq!['='])
}

/// The token names what to push.
pub open spec fn names_push_target(t: Seq<char>) -> bool {
    flag_match(t, "-b"@) || flag_match(t, "--bookmark"@) || flag_match(t, "--all"@) || flag_match(
        t,
        "--named"@,
    ) || flag_match(t, "-c"@) || flag_match(t, "--change"@) || flag_match(t, "--tracked"@)
        || flag_match(t, "--deleted"@)
}

/// Some token of the command names what to push.
pub open spec fn has_push_target(s: Seq<char>) -> bool {
    exists|i: int, j: int| is_token(s, i, j) && names_push_target(#[trigger] s.subrange(i, j))
}

/// A character that may stand in a bookmark name passed through the shell.
pub open spec fn is_safe_char(c: char) -> bool {
    ('a' <= c && c <= 'z') || ('A' <= c && c <= 'Z') || ('0' <= c && c <= '9') || c == '-' || c
        == '_' || c == '/' || c == '.'
}

/// A non-empty name made of safe characters only.
pub open spec fn is_shell_safe(name: Seq<char>) -> bool {
    name.len() > 0 && forall|k: int| 0 <= k < name.len() ==> is_safe_char(#[trigger] name[k])
}

/// ` -b <name>` for each bookmark, in order.
pub open spec fn bookmark_flags(bms: Seq<Seq<char>>) -> Seq<char>
    decreases bms.len(),
{
    if bms.len() == 0 {
        seq![]
    } else {
        bookmark_flags(bms.drop_last()) + " -b "@ + bms.last()
    }
}

/// A `jj ... git push ...` command.
pub open spec fn is_jj_git_push(base: Seq<char>) -> bool {
    starts_with(base, "jj "@) && contains(base, "git push"@)
}

/// The push command: `base` with ` -b <name>` for each bookmark, when `base`
/// is a jj git push that names no target and every bookmark is shell-safe;
/// `base` unchanged otherwise.
pub open spec fn push_command(base: Seq<char>, bms: Seq<Seq<char>>) -> Seq<char> {
    if is_jj_git_push(base) && !has_push_target(base) && bms.len() > 0 && (forall|k: int|
        0 <= k < bms.len() ==> is_shell_safe(#[trigger] bms[k])) {
        base + bookmark_flags(bms)
    } else {
        base
    }
}

/// Unicode lowercase of a string (`str::to_lowercase`).
pub uninterp spec fn unicode_lowercase(s: Seq<char>) -> Seq<char>;

// ---------------------------------------------------------------------------
// Trusted items
// ---------------------------------------------------------------------------

/// Every character is ASCII.
pub open spec fn all_ascii(m: Seq<char>) -> bool {
    forall|i: int| 0 <= i < m.len() ==> (m[i] as u32) < 128
}

/// `str::to_lowercase`: the Unicode lowercase mapping of `s`. Its result is
/// named: the mapping depends on the Unicode tables alone. What is stated of
/// it is that it maps `s` character by character, so that a run of ASCII
/// characters of `s` appears in the result in ASCII lowercase (ASCII letters
/// lowercase to themselves in Unicode; only `Σ` looks at its neighbours).
#[verifier::external_body]
fn to_lowercase(s: &str) -> (r: String)
    ensures
        r@ == unicode_lowercase(s@),
        forall|m: Seq<char>| all_ascii(m) && #[trigger] contains(s@, m) ==> contains(r@, lower(m)),
{
    s.to_lowercase()
}

// ---------------------------------------------------------------------------
// Executable functions
// ---------------------------------------------------------------------------

/// Whether the token `v[a..b]` names what to push.
fn token_names_target(v: &[char], a: usize, b: usize) -> (r: bool)
    requires
        a <= b <= v@.len(),
    ensures
        r == names_push_target(v@.subrange(a as int, b as int)),
{
    let f0 = chars_of("-b");
    let f1 = chars_of("--bookmark");
    let f2 = chars_of("--all");
    let f3 = chars_of("--named");
    let f4 = chars_of("-c");
    let f5 = chars_of("--change");
    let f6 = chars_of("--tracked");
    let f7 = chars_of("--deleted");
    flag_match_exec(v, a, b, &f0) || flag_match_exec(v, a, b, &f1) || flag_match_exec(v, a, b, &f2)
        || flag_match_exec(v, a, b, &f3) || flag_match_exec(v, a, b, &f4) || flag_match_exec(
        v,
        a,
        b,
        &f5,
    ) || flag_match_exec(v, a, b, &f6) || flag_match_exec(v, a, b, &f7)
}

/// Whether the token `v[a..b]` is `flag` or `flag=...`.
fn flag_match_exec(v: &[char], a: usize, b: usize, flag: &Vec<char>) -> (r: bool)
    requires
        a <= b <= v@.len(),
    ensures
        r == flag_match(v@.subrange(a as int, b as int), flag@),
{
    if span_eq(v, a, b, flag.as_slice()) {
        return true;
    }
    let mut fe: Vec<char> = flag.clone();
    fe.push('=');
    assert(fe@ == flag@ + seq!['=']);
    span_starts_with(v, a, b, fe.as_slice())
}

/// Whether a whitespace-separated token of `base` names what to push
/// (`-b`, `--bookmark`, `--all`, `--named`, `-c`, `--change`, `--tracked`,
/// `--deleted`, alone or followed by `=`).
pub fn has_explicit_push_target(base: &str) -> (r: bool)
    ensures
        r == has_push_target(base@),
{
    let v = chars_of(base);
    let ghost s = v@;
    let n = v.len();
    let mut pos: usize = 0;
    while pos < n
        invariant
            s == v@,
            n == v@.len(),
            s == base@,
            pos <= n,
            pos == 0 || pos == n || is_ws(s[pos - 1]) || is_ws(s[pos as int]),
            forall|i: int, j: int|
                #![trigger s.subrange(i, j)]
                is_token(s, i, j) && i < pos ==> !names_push_target(s.subrange(i, j)),
        decreases n - pos,
    {
        let mut a: usize = pos;
        while a < n && is_whitespace(v[a])
            invariant
                pos <= a <= n,
                n == v@.len(),
                s == v@,
                forall|k: int| pos <= k < a ==> is_ws(#[trigger] s[k]),
            decreases n - a,
        {
            a += 1;
        }
        if a == n {
            assert forall|i: int, j: int| is_token(s, i, j) implies !names_push_target(
                #[trigger] s.subrange(i, j),
            ) by {
                if i >= pos {
                    assert(!is_ws(s[i]));
                }
            }
            return false;
        }
        let mut b: usize = a;
        while b < n && !is_whitespace(v[b])
            invariant
                a <= b <= n,
                n == v@.len(),
                s == v@,
                forall|k: int| a <= k < b ==> !is_ws(#[trigger] s[k]),
            decreases n - b,
        {
            b += 1;
        }
        assert(is_token(s, a as int, b as int)) by {
            if a > pos {
                assert(is_ws(s[a - 1]));
            }
        }
        if token_names_target(&v, a, b) {
            assert(is_token(s, a as int, b as int) && names_push_target(
                s.subrange(a as int, b as int),
            ));
            return true;
        }
        assert forall|i: int, j: int|
            #![trigger s.subrange(i, j)]
            is_token(s, i, j) && i < b implies !names_push_target(s.subrange(i, j)) by {
            if i >= pos {
                if i < a {
                    assert(!is_ws(s[i]));
                } else if i > a {
                    assert(!is_ws(s[i - 1]));
                } else {
                    if j < b {
                        assert(!is_ws(s[j]));
                    } else if j > b {
                        assert(!is_ws(s[b as int]));
                    }
                }
            }
        }
        pos = b;
    }
    assert forall|i: int, j: int| is_token(s, i, j) implies !names_push_target(
        #[trigger] s.subrange(i, j),
    ) by {}
    false
}

/// Whether `name` is a non-empty run of ASCII letters, digits and `-_/.`.
pub fn is_shell_safe_bookmark_name(name: &str) -> (r: bool)
    ensures
        r == is_shell_safe(name@),
{
    let v = chars_of(name);
    if v.len() == 0 {
        return false;
    }
    let mut i: usize = 0;
    while i < v.len()
        invariant
            i <= v@.len(),
            v@ == name@,
            forall|k: int| 0 <= k < i ==> is_safe_char(#[trigger] v@[k]),
        decreases v@.len() - i,
    {
        let c = v[i];
        let ok = ('a' <= c && c <= 'z') || ('A' <= c && c <= 'Z') || ('0' <= c && c <= '9') || c
            == '-' || c == '_' || c == '/' || c == '.';
        if !ok {
            assert(!is_safe_char(name@[i as int]));
            return false;
        }
        i += 1;
    }
    true
}

/// The push command for `base` and the detected bookmarks.
pub fn build_push_command(base: &str, bookmarks: &[String]) -> (r: String)
    ensures
        r@ == push_command(base@, views(bookmarks@)),
{
    let bv = chars_of(base);
    assert(bv@.subrange(0, bv@.len() as int) == bv@);
    let jj = chars_of("jj ");
    let gp = chars_of("git push");
    let is_jj_git_push = span_starts_with(&bv, 0, bv.len(), &jj) && find_from_exec(
        &bv,
        bv.len(),
        &gp,
        0,
    ).is_some();
    if !is_jj_git_push || has_explicit_push_target(base) || bookmarks.len() == 0 {
        return owned(base);
    }
    let ghost bms = views(bookmarks@);
    let mut k: usize = 0;
    while k < bookmarks.len()
        invariant
            k <= bookmarks@.len(),
            bms == views(bookmarks@),
            forall|j: int| 0 <= j < k ==> is_shell_safe(#[trigger] bms[j]),
        decreases bookmarks@.len() - k,
    {
        if !is_shell_safe_bookmark_name(bookmarks[k].as_str()) {
            assert(!is_shell_safe(bms[k as int]));
            return owned(base);
        }
        k += 1;
    }
    let mut out: Vec<char> = bv;
    let mut i: usize = 0;
    while i < bookmarks.len()
        invariant
            i <= bookmarks@.len(),
            bms == views(bookmarks@),
            out@ == base@ + bookmark_flags(bms.take(i as int)),
        decreases bookmarks@.len() - i,
    {
        append_str(&mut out, " -b ");
        append_str(&mut out, bookmarks[i].as_str());
        proof {
            assert(bms.take(i + 1).drop_last() == bms.take(i as int));
            assert(bms.take(i + 1).last() == bookmarks@[i as int]@);
        }
        i += 1;
    }
    assert(bms.take(bookmarks@.len() as int) == bms);
    string_of(&out)
}

/// Whether already-lowercased push output says that jj refused the push.
pub fn mentions_refusal(lowered: &str) -> (r: bool)
    ensures
        r == contains(lowered@, "refusing to"@),
{
    let v = chars_of(lowered);
    let p = chars_of("refusing to");
    assert(v@.subrange(0, v@.len() as int) == v@);
    find_from_exec(&v, v.len(), &p, 0).is_some()
}

/// Whether the push output says, in any case, that jj refused the push
/// (jj exits 0 when it refuses to create a new remote bookmark). A
/// `refusing to` in any ASCII case anywhere in the output, on any line, is
/// always seen.
pub fn push_was_refused(output: &str) -> (r: bool)
    ensures
        r == contains(unicode_lowercase(output@), "refusing to"@),
        (exists|i: int|
            0 <= i && i + "refusing to"@.len() <= output@.len() && lower(
                #[trigger] output@.subrange(i, i + "refusing to"@.len()),
            ) == "refusing to"@) ==> r,
{
    let lowered = to_lowercase(output);
    let v = chars_of(output);
    let lv = lower_span(&v, 0, v.len());
    let p = chars_of("refusing to");
    assert(v@.subrange(0, v@.len() as int) == v@);
    assert(lv@.subrange(0, lv@.len() as int) == lv@);
    let found = find_from_exec(&lv, lv.len(), &p, 0);
    proof {
        let s = output@;
        let pv = "refusing to"@;
        assert(lv@ == lower(s));
        assert(p@ == pv);
        lemma_find_from(lower(s), pv, 0);
        if found is None {
            assert forall|i: int|
                0 <= i && i + pv.len() <= s.len() implies lower(
                #[trigger] s.subrange(i, i + pv.len()),
            ) != pv by {
                assert(lower(s.subrange(i, i + pv.len())) =~= lower(s).subrange(i, i + pv.len()));
                assert(!occurs_at(lower(s), pv, i));
            }
        }
    }
    match found {
        Some(i) => {
            proof {
                let s = output@;
                let pv = "refusing to"@;
                reveal_strlit("refusing to");
                let m = s.subrange(i as int, i + pv.len());
                assert(occurs_at(lower(s), pv, i as int));
                assert(lower(m) =~= lower(s).subrange(i as int, i + pv.len()));
                assert forall|j: int| 0 <= j < m.len() implies (m[j] as u32) < 128 by {
                    assert(lower(m)[j] == lower_char(m[j]));
                    assert(lower(m)[j] == pv[j]);
                }
                assert(all_ascii(m));
                assert(occurs_at(s, m, i as int)) by {
                    assert(s.subrange(i as int, i + m.len()) =~= m);
                }
                lemma_find_from(s, m, 0);
                assert(contains(s, m));
                assert(contains(lowered@, lower(m)));
            }
            true
        },
        None => mentions_refusal(lowered.as_str()),
    }
}

/// The push timeout in force.
pub open spec fn push_timeout(config: PushConfig) -> u64 {
    match config.timeout {
        Some(t) => t,
        None => DEFAULT_PUSH_TIMEOUT_SECS,
    }
}

/// Runs the push. When the configured command is a jj command, the
/// bookmarks are first moved up to the pushed commit through `advance`
/// (a failure there is only reported). The command that `run_cmd` runs is
/// the configured one with the detected bookmarks named, with the
/// configured timeout; the push succeeded when the command did and jj did
/// not refuse it.
pub fn run_push<
    A: FnOnce() -> Result<(), String>,
    R: FnOnce(&str, u64) -> Result<String, String>,
>(config: &PushConfig, detected_bookmarks: &[String], advance: A, run_cmd: R) -> (b: bool)
    requires
        call_requires(advance, ()),
        forall|c: &str, t: u64| call_requires(run_cmd, (c, t)),
    ensures
        starts_with(config.command@, "jj "@) ==> exists|a: Result<(), String>|
            call_ensures(advance, (), a),
        exists|c: &str, out: Result<String, String>|
            #![trigger call_ensures(run_cmd, (c, push_timeout(*config)), out)]
            c@ == push_command(config.command@, views(detected_bookmarks@)) && call_ensures(
                run_cmd,
                (c, push_timeout(*config)),
                out,
            ) && b == match out {
                Ok(o) => !contains(unicode_lowercase(o@), "refusing to"@),
                Err(_) => false,
            },
{
    let cv = chars_of(config.command.as_str());
    let jj = chars_of("jj ");
    assert(cv@.subrange(0, cv@.len() as int) == cv@);
    let ghost mut advanced: Option<Result<(), String>> = None;
    if span_starts_with(&cv, 0, cv.len(), &jj) {
        let a = advance();
        proof {
            advanced = Some(a);
        }
        assert(call_ensures(advance, (), a));
    }
    let timeout = match config.timeout {
        Some(t) => t,
        None => DEFAULT_PUSH_TIMEOUT_SECS,
    };
    let command = build_push_command(config.command.as_str(), detected_bookmarks);
    let c: &str = command.as_str();
    let out = run_cmd(c, timeout);
    let ghost out_g = out;
    let b = match &out {
        Ok(o) => !push_was_refused(o.as_str()),
        Err(_) => false,
    };
    assert(timeout == push_timeout(*config));
    assert(call_ensures(run_cmd, (c, push_timeout(*config)), out_g));
    proof {
        if starts_with(config.command@, "jj "@) {
            assert(advanced is Some);
            assert(call_ensures(advance, (), advanced->0));
        }
    }
    b
}

} // verus!
