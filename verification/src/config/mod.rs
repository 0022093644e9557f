//! The typed configuration of the pipeline, one module per section, and
//! what is resolved from it: the base branch of the pull request, the
//! revset of its range, and the checks a configuration must pass.
pub mod docs_only_routing;
pub mod ledger_completion;
pub mod lint_screen;
pub mod open_questions_gate;
pub mod post_takt_regate;
pub mod pr_size_check;
pub mod quality_gate;
pub mod scratch_file_warning;
pub mod takt;
pub mod takt_verdict_gate;
pub mod testability_gate;

use vstd::prelude::*;

use crate::text::{
    append_str, debug_quote, debug_str, chars_of, contains, find_from_exec, owned, string_of, trim, trim_string, views,
};
use docs_only_routing::DocsOnlyRoutingConfig;
use ledger_completion::LedgerCompletionConfig;
use lint_screen::{
    default_lint_screen_enabled, env_override_of, parse_lint_screen_env, LintScreenConfig,
    LintScreenEnvOverride,
};
use post_takt_regate::PostTaktRegateConfig;
use pr_size_check::PrSizeCheckConfig;
use quality_gate::{GroupConfig, QualityGateConfig};
use scratch_file_warning::ScratchFileWarningConfig;
use takt::TaktConfig;
use testability_gate::{validate_testability_gate_mode, TestabilityGateConfig};

verus! {

// ---------------------------------------------------------------------------
// Types and constants
// ---------------------------------------------------------------------------

/// Seconds the push may run.
pub const DEFAULT_PUSH_TIMEOUT_SECS: u64 = 300;

/// Seconds the diff command may run.
pub const DEFAULT_DIFF_TIMEOUT_SECS: u64 = 60;

/// The base branch when nothing names one.
pub const DEFAULT_BASE_BRANCH: &'static str = "master";

/// The remote whose tracking ref is preferred as the base.
pub const DEFAULT_REMOTE: &'static str = "origin";

/// What the diff command must contain; it is replaced by the PR range.
pub const DIFF_PR_RANGE_PLACEHOLDER: &'static str = "{{PR_RANGE}}";

/// The whole configuration file.
pub struct Config {
    pub default_branch: Option<String>,
    pub quality_gate: QualityGateConfig,
    pub diff: Option<DiffConfig>,
    pub lint_screen: Option<LintScreenConfig>,
    pub takt: TaktConfig,
    pub push: PushConfig,
    pub scratch_file_warning: Option<ScratchFileWarningConfig>,
    pub ledger_completion: Option<LedgerCompletionConfig>,
    pub pr_size_check: Option<PrSizeCheckConfig>,
    pub pre_push_review: Option<PrePushReviewConfig>,
    pub docs_only_routing: Option<DocsOnlyRoutingConfig>,
    pub post_takt_regate: Option<PostTaktRegateConfig>,
    pub testability_gate: Option<TestabilityGateConfig>,
}

/// The `[pre_push_review]` section: an alternative (refuting) workflow.
pub struct PrePushReviewConfig {
    pub refute_enabled: Option<bool>,
    pub refute_workflow: Option<String>,
}

/// The `[diff]` section: the command whose output the review reads.
pub struct DiffConfig {
    pub command: String,
    pub output_path: String,
    pub timeout: Option<u64>,
    pub default_branch: Option<String>,
}

/// The `[push]` section.
pub struct PushConfig {
    pub command: String,
    pub timeout: Option<u64>,
}

// ---------------------------------------------------------------------------
// Specifications
// ---------------------------------------------------------------------------

/// The view of an optional owned string.
pub open spec fn opt_string(o: Option<String>) -> Option<Seq<char>> {
    match o {
        Some(s) => Some(s@),
        None => None,
    }
}

/// The view of an optional string slice.
pub open spec fn opt_str(o: Option<&str>) -> Option<Seq<char>> {
    match o {
        Some(s) => Some(s@),
        None => None,
    }
}

/// A branch name trimmed; a blank or absent one is no name.
pub open spec fn normalized(o: Option<Seq<char>>) -> Option<Seq<char>> {
    match o {
        Some(s) => if trim(s).len() > 0 {
            Some(trim(s))
        } else {
            None
        },
        None => None,
    }
}

/// The one-item list of a present value.
pub open spec fn opt_seq(o: Option<Seq<char>>) -> Seq<Seq<char>> {
    match o {
        Some(s) => seq![s],
        None => seq![],
    }
}

/// The common value of a non-empty list whose items are all equal.
pub open spec fn agreed(vs: Seq<Seq<char>>) -> Option<Seq<char>> {
    if vs.len() > 0 && forall|i: int| 0 <= i < vs.len() ==> #[trigger] vs[i] == vs[0] {
        Some(vs[0])
    } else {
        None
    }
}

/// The `[diff]` section's branch.
pub open spec fn diff_branch(c: Config) -> Option<Seq<char>> {
    match c.diff {
        Some(d) => opt_string(d.default_branch),
        None => None,
    }
}

/// The `[docs_only_routing]` section's branch.
pub open spec fn docs_only_branch(c: Config) -> Option<Seq<char>> {
    match c.docs_only_routing {
        Some(d) => opt_string(d.default_branch),
        None => None,
    }
}

/// The `[pr_size_check]` section's branch.
pub open spec fn pr_size_branch(c: Config) -> Option<Seq<char>> {
    match c.pr_size_check {
        Some(p) => opt_string(p.default_branch),
        None => None,
    }
}

/// The branches the sections name, normalized, in the order diff,
/// docs-only routing, PR size.
pub open spec fn section_branches(c: Config) -> Seq<Seq<char>> {
    opt_seq(normalized(diff_branch(c))) + opt_seq(normalized(docs_only_branch(c))) + opt_seq(
        normalized(pr_size_branch(c)),
    )
}

/// The default branch of the configuration: the top-level one, else the
/// one every section that names a branch agrees on.
pub open spec fn effective_branch(c: Config) -> Option<Seq<char>> {
    match normalized(opt_string(c.default_branch)) {
        Some(t) => Some(t),
        None => agreed(section_branches(c)),
    }
}

/// The base branch for a section: its own override, else the default
/// branch of the configuration, else `master`.
pub open spec fn base_branch(c: Config, section_override: Option<Seq<char>>) -> Seq<char> {
    match normalized(section_override) {
        Some(v) => v,
        None => match effective_branch(c) {
            Some(e) => e,
            None => "master"@,
        },
    }
}

/// `out` is the preferred ref for `branch`: the branch itself when it
/// already names a remote; otherwise `<branch>@origin` when `ref_exists` said
/// that ref resolves, the branch when it said not.
pub open spec fn preferred_ref<F: Fn(&str) -> bool>(
    ref_exists: F,
    branch: Seq<char>,
    out: Seq<char>,
) -> bool {
    if branch.contains('@') {
        out == branch
    } else {
        exists|r: &str, res: bool|
            r@ == branch + "@origin"@ && call_ensures(ref_exists, (r,), res) && out == if res {
                branch + "@origin"@
            } else {
                branch
            }
    }
}

/// `out` is the PR range revset for a section: `<preferred base ref>..@`.
pub open spec fn pr_range<F: Fn(&str) -> bool>(
    ref_exists: F,
    c: Config,
    section_override: Option<Seq<char>>,
    out: Seq<char>,
) -> bool {
    exists|base: Seq<char>|
        preferred_ref(ref_exists, base_branch(c, section_override), base) && out == base + "..@"@
}

/// The message for a diff command without the PR-range placeholder, given
/// the command as `{:?}` writes it.
pub open spec fn placeholder_error_text(quoted: Seq<char>) -> Seq<char> {
    "設定ファイルエラー: [diff] command が {{PR_RANGE}} を含みません (現在: "@ + quoted
        + ")。PR 範囲全体をレビュー対象にするため command には {{PR_RANGE}} を使うこと (例: \"jj diff --git -r {{PR_RANGE}}\")。直書きの範囲 (`-r @` 等) は tip のみをレビューし、祖先コミットが未レビューで merge される (todo 順位 288、4 回再発)"@
}

/// The message for ranges that disagree.
pub open spec fn range_error_text(name: Seq<char>, range: Seq<char>, diff_range: Seq<char>) -> Seq<
    char,
> {
    "設定ファイルエラー: PR 範囲が stage 間で一致しません (["@ + name + "] は \""@ + range
        + "\" に解決、[diff] は \""@ + diff_range
        + "\" に解決)。default_branch は top-level か、全 section で同じ値にすること"@
}

// ---------------------------------------------------------------------------
// Executable functions
// ---------------------------------------------------------------------------

/// A branch name trimmed, or `None` when blank or absent.
pub fn normalize_branch(value: Option<&str>) -> (r: Option<String>)
    ensures
        opt_string(r) == normalized(opt_str(value)),
{
    match value {
        None => None,
        Some(v) => {
            let t = trim_string(v);
            if t.as_str().is_empty() {
                None
            } else {
                Some(t)
            }
        },
    }
}

/// The preferred base ref for `branch`: `<branch>@origin` when `ref_exists`
/// says it resolves (a lagging local branch would count other merged work
/// into the range), the branch otherwise; a branch that already names a
/// remote is kept.
pub fn preferred_base_ref<F: Fn(&str) -> bool>(branch: &str, ref_exists: &F) -> (r: String)
    requires
        forall|s: &str| call_requires(*ref_exists, (s,)),
    ensures
        preferred_ref(*ref_exists, branch@, r@),
{
    let bv = chars_of(branch);
    if crate::stages::scratch_file_warning::glob::contains_char(&bv, '@') {
        return owned(branch);
    }
    let mut rv = bv;
    append_str(&mut rv, "@origin");
    let remote_ref = string_of(&rv);
    let rs: &str = remote_ref.as_str();
    assert(rs@ == branch@ + "@origin"@);
    let res = ref_exists(rs);
    assert(call_ensures(*ref_exists, (rs,), res));
    if res {
        remote_ref
    } else {
        owned(branch)
    }
}

impl Config {
    /// The default branch of the configuration: the top-level one, else the
    /// one that every section naming a branch agrees on (none when they
    /// disagree or none names one).
    pub fn effective_default_branch(&self) -> (r: Option<String>)
        ensures
            opt_string(r) == effective_branch(*self),
    {
        let top = match &self.default_branch {
            Some(b) => normalize_branch(Some(b.as_str())),
            None => normalize_branch(None),
        };
        if top.is_some() {
            return top;
        }
        let d = match &self.diff {
            Some(c) => match &c.default_branch {
                Some(b) => normalize_branch(Some(b.as_str())),
                None => None,
            },
            None => None,
        };
        let o = match &self.docs_only_routing {
            Some(c) => match &c.default_branch {
                Some(b) => normalize_branch(Some(b.as_str())),
                None => None,
            },
            None => None,
        };
        let p = match &self.pr_size_check {
            Some(c) => match &c.default_branch {
                Some(b) => normalize_branch(Some(b.as_str())),
                None => None,
            },
            None => None,
        };
        let mut overrides: Vec<String> = Vec::new();
        if let Some(x) = d {
            overrides.push(x);
        }
        if let Some(x) = o {
            overrides.push(x);
        }
        if let Some(x) = p {
            overrides.push(x);
        }
        let ghost vs = section_branches(*self);
        assert(views(overrides@) == vs);
        if overrides.len() == 0 {
            return None;
        }
        let mut k: usize = 1;
        while k < overrides.len()
            invariant
                1 <= k <= overrides@.len(),
                vs == views(overrides@),
                vs == section_branches(*self),
                normalized(opt_string(self.default_branch)) is None,
                forall|i: int| 0 <= i < k ==> #[trigger] vs[i] == vs[0],
            decreases overrides@.len() - k,
        {
            if !(overrides[k] == overrides[0]) {
                assert(vs[k as int] != vs[0]);
                return None;
            }
            k += 1;
        }
        Some(overrides[0].clone())
    }

    /// The base branch for a section.
    pub fn resolve_base_branch(&self, section_override: Option<&str>) -> (r: String)
        ensures
            r@ == base_branch(*self, opt_str(section_override)),
    {
        if let Some(v) = normalize_branch(section_override) {
            return v;
        }
        match self.effective_default_branch() {
            Some(e) => e,
            None => owned(DEFAULT_BASE_BRANCH),
        }
    }

    /// The PR range revset for a section, `<preferred base ref>..@`, where
    /// `ref_exists` says whether a remote ref resolves.
    pub fn pr_range_revset_with<F: Fn(&str) -> bool>(
        &self,
        section_override: Option<&str>,
        ref_exists: F,
    ) -> (r: String)
        requires
            forall|s: &str| call_requires(ref_exists, (s,)),
        ensures
            pr_range(ref_exists, *self, opt_str(section_override), r@),
    {
        let base = self.resolve_base_branch(section_override);
        let pref = preferred_base_ref(base.as_str(), &ref_exists);
        let mut out = chars_of(pref.as_str());
        append_str(&mut out, "..@");
        string_of(&out)
    }

    /// The PR range of the `[diff]` stage.
    pub fn diff_pr_range<F: Fn(&str) -> bool>(&self, ref_exists: &F) -> (r: String)
        requires
            forall|s: &str| call_requires(*ref_exists, (s,)),
        ensures
            pr_range(*ref_exists, *self, diff_branch(*self), r@),
    {
        let ovr: Option<&str> = match &self.diff {
            Some(c) => match &c.default_branch {
                Some(b) => Some(b.as_str()),
                None => None,
            },
            None => None,
        };
        self.range_for(ovr, ref_exists)
    }

    /// The PR range of the docs-only routing stage.
    pub fn docs_only_pr_range<F: Fn(&str) -> bool>(&self, ref_exists: &F) -> (r: String)
        requires
            forall|s: &str| call_requires(*ref_exists, (s,)),
        ensures
            pr_range(*ref_exists, *self, docs_only_branch(*self), r@),
    {
        let ovr: Option<&str> = match &self.docs_only_routing {
            Some(c) => match &c.default_branch {
                Some(b) => Some(b.as_str()),
                None => None,
            },
            None => None,
        };
        self.range_for(ovr, ref_exists)
    }

    /// The PR range of the PR size check.
    pub fn pr_size_pr_range<F: Fn(&str) -> bool>(&self, ref_exists: &F) -> (r: String)
        requires
            forall|s: &str| call_requires(*ref_exists, (s,)),
        ensures
            pr_range(*ref_exists, *self, pr_size_branch(*self), r@),
    {
        let ovr: Option<&str> = match &self.pr_size_check {
            Some(c) => match &c.default_branch {
                Some(b) => Some(b.as_str()),
                None => None,
            },
            None => None,
        };
        self.range_for(ovr, ref_exists)
    }

    fn range_for<F: Fn(&str) -> bool>(&self, section_override: Option<&str>, ref_exists: &F) -> (r:
        String)
        requires
            forall|s: &str| call_requires(*ref_exists, (s,)),
        ensures
            pr_range(*ref_exists, *self, opt_str(section_override), r@),
    {
        let base = self.resolve_base_branch(section_override);
        let pref = preferred_base_ref(base.as_str(), ref_exists);
        let mut out = chars_of(pref.as_str());
        append_str(&mut out, "..@");
        string_of(&out)
    }
}

/// The workflow to run: the refuting one when `[pre_push_review]` turns it
/// on and names it, the `[takt]` workflow otherwise.
pub fn resolve_takt_workflow(config: &Config) -> (r: String)
    ensures
        r@ == match config.pre_push_review {
            Some(p) => if p.refute_enabled == Some(true) && p.refute_workflow is Some {
                p.refute_workflow->0@
            } else {
                config.takt.workflow@
            },
            None => config.takt.workflow@,
        },
{
    if let Some(pre_push) = &config.pre_push_review {
        if pre_push.refute_enabled == Some(true) {
            if let Some(workflow) = &pre_push.refute_workflow {
                return workflow.clone();
            }
        }
    }
    config.takt.workflow.clone()
}

/// The message for a diff command without the placeholder, from the
/// command as `{:?}` writes it.
pub fn placeholder_error(quoted: &str) -> (r: String)
    ensures
        r@ == placeholder_error_text(quoted@),
{
    let mut out = chars_of("設定ファイルエラー: [diff] command が {{PR_RANGE}} を含みません (現在: ");
    append_str(&mut out, quoted);
    append_str(
        &mut out,
        ")。PR 範囲全体をレビュー対象にするため command には {{PR_RANGE}} を使うこと (例: \"jj diff --git -r {{PR_RANGE}}\")。直書きの範囲 (`-r @` 等) は tip のみをレビューし、祖先コミットが未レビューで merge される (todo 順位 288、4 回再発)",
    );
    string_of(&out)
}

/// A `[diff]` command must contain `{{PR_RANGE}}`, so that the review reads
/// the whole range and not only its tip.
pub fn validate_diff_command_uses_pr_range(config: &Config) -> (r: Result<(), String>)
    ensures
        match config.diff {
            None => r is Ok,
            Some(d) => if contains(d.command@, "{{PR_RANGE}}"@) {
                r is Ok
            } else {
                r matches Err(e) && e@ == placeholder_error_text(debug_str(d.command@))
            },
        },
{
    let diff = match &config.diff {
        None => {
            return Ok(());
        },
        Some(d) => d,
    };
    let cv = chars_of(diff.command.as_str());
    let ph = chars_of(DIFF_PR_RANGE_PLACEHOLDER);
    assert(cv@.subrange(0, cv@.len() as int) == cv@);
    if find_from_exec(&cv, cv.len(), &ph, 0).is_some() {
        return Ok(());
    }
    let quoted = debug_quote(diff.command.as_str());
    Err(placeholder_error(quoted.as_str()))
}

/// The message for ranges that disagree.
fn range_error(name: &str, range: &str, diff_range: &str) -> (r: String)
    ensures
        r@ == range_error_text(name@, range@, diff_range@),
{
    let mut out = chars_of("設定ファイルエラー: PR 範囲が stage 間で一致しません ([");
    append_str(&mut out, name);
    append_str(&mut out, "] は \"");
    append_str(&mut out, range);
    append_str(&mut out, "\" に解決、[diff] は \"");
    append_str(&mut out, diff_range);
    append_str(&mut out, "\" に解決)。default_branch は top-level か、全 section で同じ値にすること");
    string_of(&out)
}

/// The diff, docs-only routing and PR size stages must resolve to the same
/// PR range; the first that differs from the diff's is named.
pub fn validate_base_branch_ranges_agree<F: Fn(&str) -> bool>(config: &Config, ref_exists: &F) -> (r:
    Result<(), String>)
    requires
        forall|s: &str| call_requires(*ref_exists, (s,)),
    ensures
        exists|d: Seq<char>, o: Seq<char>, p: Seq<char>|
            pr_range(*ref_exists, *config, diff_branch(*config), d) && pr_range(
                *ref_exists,
                *config,
                docs_only_branch(*config),
                o,
            ) && pr_range(*ref_exists, *config, pr_size_branch(*config), p) && if o != d {
                r matches Err(e) && e@ == range_error_text("docs_only_routing"@, o, d)
            } else if p != d {
                r matches Err(e) && e@ == range_error_text("pr_size_check"@, p, d)
            } else {
                r is Ok
            },
{
    let d = config.diff_pr_range(ref_exists);
    let o = config.docs_only_pr_range(ref_exists);
    let p = config.pr_size_pr_range(ref_exists);
    if !(o == d) {
        return Err(range_error("docs_only_routing", o.as_str(), d.as_str()));
    }
    if !(p == d) {
        return Err(range_error("pr_size_check", p.as_str(), d.as_str()));
    }
    Ok(())
}

/// The message for the first group, from `i` on, that has no commands.
pub open spec fn empty_group_error(gs: Seq<GroupConfig>, i: int) -> Option<Seq<char>>
    decreases gs.len() - i,
{
    if i < 0 || i >= gs.len() {
        None
    } else if gs[i].commands@.len() == 0 {
        Some("設定ファイルエラー: group '"@ + gs[i].name@ + "' の commands が空です"@)
    } else {
        empty_group_error(gs, i + 1)
    }
}

/// The verdict of the checks before the PR ranges: the groups, then the
/// diff command.
pub open spec fn precheck_verdict(c: Config) -> Result<(), Seq<char>> {
    if c.quality_gate.groups@.len() == 0 {
        Err("設定ファイルエラー: quality_gate.groups が空です"@)
    } else {
        match empty_group_error(c.quality_gate.groups@, 0) {
            Some(e) => Err(e),
            None => match c.diff {
                Some(d) => if contains(d.command@, "{{PR_RANGE}}"@) {
                    Ok(())
                } else {
                    Err(placeholder_error_text(debug_str(d.command@)))
                },
                None => Ok(()),
            },
        }
    }
}

/// The verdict of the checks from the PR ranges on, given the ranges the
/// diff (`d`), docs-only routing (`o`) and PR size (`p`) stages resolve to.
pub open spec fn ranges_and_mode_verdict(
    c: Config,
    d: Seq<char>,
    o: Seq<char>,
    p: Seq<char>,
) -> Result<(), Seq<char>> {
    if o != d {
        Err(range_error_text("docs_only_routing"@, o, d))
    } else if p != d {
        Err(range_error_text("pr_size_check"@, p, d))
    } else {
        match c.testability_gate {
            Some(t) => match t.mode {
                Some(m) => if testability_gate::is_known_mode(m@) {
                    Ok(())
                } else {
                    Err(testability_gate::unknown_mode_message(m@))
                },
                None => Ok(()),
            },
            None => Ok(()),
        }
    }
}

/// A unit result with its message as a spec value.
pub open spec fn unit_result_view(r: Result<(), String>) -> Result<(), Seq<char>> {
    match r {
        Ok(()) => Ok(()),
        Err(e) => Err(e@),
    }
}

/// The checks a configuration must pass when it is loaded: at least one
/// quality group, no group without commands, a diff command over the PR
/// range, one PR range for every stage, and a known testability mode.
pub fn validate_config<F: Fn(&str) -> bool>(config: &Config, ref_exists: &F) -> (r: Result<(), String>)
    requires
        forall|s: &str| call_requires(*ref_exists, (s,)),
    ensures
        config.quality_gate.groups@.len() == 0 ==> (r matches Err(e) && e@
            == "設定ファイルエラー: quality_gate.groups が空です"@),
        (exists|i: int|
            0 <= i < config.quality_gate.groups@.len()
                && config.quality_gate.groups@[i].commands@.len() == 0) ==> r is Err,
        r is Ok ==> config.quality_gate.groups@.len() > 0 && (forall|i: int|
            0 <= i < config.quality_gate.groups@.len()
                ==> config.quality_gate.groups@[i].commands@.len() > 0),
        r is Ok ==> (validate_diff_command_ok(*config) && validate_mode_ok(*config)),
        precheck_verdict(*config) is Err ==> unit_result_view(r) == precheck_verdict(*config),
        precheck_verdict(*config) is Ok ==> exists|d: Seq<char>, o: Seq<char>, p: Seq<char>|
            pr_range(*ref_exists, *config, diff_branch(*config), d) && pr_range(
                *ref_exists,
                *config,
                docs_only_branch(*config),
                o,
            ) && pr_range(*ref_exists, *config, pr_size_branch(*config), p) && unit_result_view(r)
                == ranges_and_mode_verdict(*config, d, o, p),
{
    let groups = &config.quality_gate.groups;
    if groups.len() == 0 {
        return Err(owned("設定ファイルエラー: quality_gate.groups が空です"));
    }
    let mut i: usize = 0;
    while i < groups.len()
        invariant
            i <= groups@.len(),
            groups@ == config.quality_gate.groups@,
            forall|j: int| 0 <= j < i ==> groups@[j].commands@.len() > 0,
            empty_group_error(groups@, 0) == empty_group_error(groups@, i as int),
        decreases groups@.len() - i,
    {
        if groups[i].commands.len() == 0 {
            let mut out = chars_of("設定ファイルエラー: group '");
            append_str(&mut out, groups[i].name.as_str());
            append_str(&mut out, "' の commands が空です");
            return Err(string_of(&out));
        }
        i += 1;
    }
    assert(empty_group_error(groups@, 0) is None);
    match validate_diff_command_uses_pr_range(config) {
        Err(e) => {
            return Err(e);
        },
        Ok(()) => {},
    }
    let rr = validate_base_branch_ranges_agree(config, ref_exists);
    let ghost (gd, go, gp) = choose|d: Seq<char>, o: Seq<char>, p: Seq<char>|
        pr_range(*ref_exists, *config, diff_branch(*config), d) && pr_range(
            *ref_exists,
            *config,
            docs_only_branch(*config),
            o,
        ) && pr_range(*ref_exists, *config, pr_size_branch(*config), p) && if o != d {
            rr matches Err(e) && e@ == range_error_text("docs_only_routing"@, o, d)
        } else if p != d {
            rr matches Err(e) && e@ == range_error_text("pr_size_check"@, p, d)
        } else {
            rr is Ok
        };
    match rr {
        Err(e) => {
            assert(unit_result_view(Err(e)) == ranges_and_mode_verdict(*config, gd, go, gp));
            return Err(e);
        },
        Ok(()) => {},
    }
    let t = match &config.testability_gate {
        Some(c) => validate_testability_gate_mode(Some(c)),
        None => validate_testability_gate_mode(None),
    };
    let r = match t {
        Err(e) => Err(e),
        Ok(()) => Ok(()),
    };
    assert(unit_result_view(r) == ranges_and_mode_verdict(*config, gd, go, gp));
    r
}

/// The diff command, if any, holds the placeholder.
pub open spec fn validate_diff_command_ok(c: Config) -> bool {
    match c.diff {
        None => true,
        Some(d) => contains(d.command@, "{{PR_RANGE}}"@),
    }
}

/// The testability mode, if any, is known.
pub open spec fn validate_mode_ok(c: Config) -> bool {
    match c.testability_gate {
        None => true,
        Some(t) => match t.mode {
            None => true,
            Some(m) => testability_gate::is_known_mode(m@),
        },
    }
}

/// Applies `LINT_SCREEN_ENABLED`: a "yes" turns the screen on (creating the
/// section with its defaults when absent); anything else leaves the
/// configuration as the file wrote it. What the value asked for.
pub fn apply_lint_screen_env_override(config: &mut Config, raw: Option<String>) -> (o:
    LintScreenEnvOverride)
    ensures
        o == env_override_of(opt_string(raw)),
        o is ForceEnable ==> (final(config).lint_screen matches Some(l) && l.enabled && (old(
            config,
        ).lint_screen matches Some(p) ==> l == (LintScreenConfig { enabled: true, ..p })) && (old(
            config,
        ).lint_screen is None ==> l.exe_path is None && l.model is None && l.endpoint is None
            && l.timeout_secs is None && l.max_diff_lines is None && l.output_path is None)),
        o is ForceEnable ==> *final(config) == (Config {
            lint_screen: final(config).lint_screen,
            ..*old(config)
        }),
        !(o is ForceEnable) ==> *final(config) == *old(config),
{
    let o = match &raw {
        Some(v) => parse_lint_screen_env(Some(v.as_str())),
        None => parse_lint_screen_env(None),
    };
    match o {
        LintScreenEnvOverride::ForceEnable => {
            let current = config.lint_screen.take();
            let updated = match current {
                Some(mut lint) => {
                    lint.enabled = true;
                    lint
                },
                None => default_lint_screen_enabled(),
            };
            config.lint_screen = Some(updated);
            LintScreenEnvOverride::ForceEnable
        },
        LintScreenEnvOverride::RespectToml => LintScreenEnvOverride::RespectToml,
        LintScreenEnvOverride::InvalidValue => LintScreenEnvOverride::InvalidValue,
    }
}

// ---------------------------------------------------------------------------
// Remote-ref memo
// ---------------------------------------------------------------------------

/// Answers already obtained for remote refs, so that each is resolved once.
pub struct RemoteRefCache {
    entries: Vec<(String, bool)>,
}

/// The answers recorded by a list of entries (a later entry wins).
pub open spec fn entries_map(es: Seq<(String, bool)>) -> Map<Seq<char>, bool>
    decreases es.len(),
{
    if es.len() == 0 {
        Map::empty()
    } else {
        entries_map(es.drop_last()).insert(es.last().0@, es.last().1)
    }
}

proof fn lemma_entries_tail(es: Seq<(String, bool)>, j: int, key: Seq<char>)
    requires
        0 <= j <= es.len(),
        forall|k: int| j <= k < es.len() ==> (#[trigger] es[k]).0@ != key,
    ensures
        entries_map(es).contains_key(key) == entries_map(es.take(j)).contains_key(key),
        entries_map(es).contains_key(key) ==> entries_map(es)[key] == entries_map(es.take(j))[key],
    decreases es.len() - j,
{
    if j < es.len() {
        lemma_entries_tail(es.drop_last(), j, key);
        assert(es.drop_last().take(j) == es.take(j));
    } else {
        assert(es.take(j) == es);
    }
}

impl RemoteRefCache {
    /// The answers recorded so far.
    pub closed spec fn answers(self) -> Map<Seq<char>, bool> {
        entries_map(self.entries@)
    }

    /// An empty memo.
    pub fn new() -> (c: Self)
        ensures
            c.answers() == Map::<Seq<char>, bool>::empty(),
    {
        RemoteRefCache { entries: Vec::new() }
    }
}

/// Whether the remote ref `revset` resolves: the recorded answer when there
/// is one (without resolving again), else what `resolve` says, recorded.
pub fn remote_ref_exists_cached<R: FnOnce() -> bool>(
    cache: &mut RemoteRefCache,
    revset: &str,
    resolve: R,
) -> (b: bool)
    requires
        call_requires(resolve, ()),
    ensures
        old(cache).answers().contains_key(revset@) ==> b == old(cache).answers()[revset@]
            && final(cache).answers() == old(cache).answers(),
        !old(cache).answers().contains_key(revset@) ==> call_ensures(resolve, (), b)
            && final(cache).answers() == old(cache).answers().insert(revset@, b),
{
    let ghost es = cache.entries@;
    let mut j: usize = cache.entries.len();
    while j > 0
        invariant
            j <= es.len(),
            es == cache.entries@,
            forall|k: int| j <= k < es.len() ==> (#[trigger] es[k]).0@ != revset@,
        decreases j,
    {
        let entry = &cache.entries[j - 1];
        let kv = chars_of(entry.0.as_str());
        let rv = chars_of(revset);
        if crate::text::chars_eq(&kv, &rv) {
            let value = entry.1;
            proof {
                lemma_entries_tail(es, j as int, revset@);
                assert(es.take(j as int).drop_last() == es.take(j - 1));
                assert(es.take(j as int).last() == es[j - 1]);
            }
            return value;
        }
        j -= 1;
    }
    proof {
        lemma_entries_tail(es, 0, revset@);
        assert(es.take(0).len() == 0);
    }
    let resolved = resolve();
    cache.entries.push((owned(revset), resolved));
    proof {
        assert(cache.entries@.drop_last() == es);
    }
    resolved
}

} // verus!
