//! `[docs_only_routing]`: a push that changes documentation only skips the
//! heavy quality groups.
use vstd::prelude::*;

use crate::stages::scratch_file_warning::opt_views;
use crate::text::{owned, trim, trim_string, views};

verus! {

/// The base branch when the section names none.
pub const DEFAULT_DOCS_ONLY_BASE_BRANCH: &'static str = "master";

/// The group skipped when the section names none.
pub const DEFAULT_DOCS_ONLY_SKIP_GROUP: &'static str = "rust-lint-test";

/// The `[docs_only_routing]` section.
pub struct DocsOnlyRoutingConfig {
    pub enabled: Option<bool>,
    pub default_branch: Option<String>,
    pub skip_groups: Option<Vec<String>>,
}

impl DocsOnlyRoutingConfig {
    /// The base branch in force: the configured one trimmed, or `master`
    /// when it is blank or unset.
    pub fn effective_default_branch(&self) -> (r: String)
        ensures
            r@ == match self.default_branch {
                Some(b) => if trim(b@).len() > 0 {
                    trim(b@)
                } else {
                    "master"@
                },
                None => "master"@,
            },
    {
        if let Some(b) = &self.default_branch {
            let t = trim_string(b.as_str());
            if !t.as_str().is_empty() {
                return t;
            }
        }
        owned(DEFAULT_DOCS_ONLY_BASE_BRANCH)
    }

    /// The groups to skip: the configured ones when there are any, else
    /// `rust-lint-test`.
    pub fn effective_skip_groups(&self) -> (r: Vec<String>)
        ensures
            views(r@) == if opt_views(self.skip_groups).len() > 0 {
                opt_views(self.skip_groups)
            } else {
                seq!["rust-lint-test"@]
            },
    {
        if let Some(groups) = &self.skip_groups {
            if groups.len() > 0 {
                let mut r: Vec<String> = Vec::new();
                let mut k: usize = 0;
                while k < groups.len()
                    invariant
                        k <= groups@.len(),
                        views(r@) == views(groups@).take(k as int),
                    decreases groups@.len() - k,
                {
                    let ghost before = r@;
                    r.push(groups[k].clone());
                    assert(views(r@) == views(before).push(groups@[k as int]@));
                    assert(views(groups@).take(k + 1) == views(groups@).take(k as int).push(
                        groups@[k as int]@,
                    ));
                    k += 1;
                }
                assert(views(groups@).take(groups@.len() as int) == views(groups@));
                return r;
            }
        }
        let mut d: Vec<String> = Vec::new();
        d.push(owned(DEFAULT_DOCS_ONLY_SKIP_GROUP));
        assert(views(d@) == seq!["rust-lint-test"@]);
        d
    }
}

} // verus!
