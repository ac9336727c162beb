//! GitHub site checker.

use crate::data::site_info::SiteType;
use crate::sites::site::Site;
use vstd::prelude::*;

verus! {

/// GitHub site checker.
pub struct GitHubChecker;

impl GitHubChecker {
    /// A checker for GitHub.
    pub fn new() -> (r: GitHubChecker) {
        GitHubChecker
    }
}

impl Default for GitHubChecker {
    fn default() -> (r: GitHubChecker) {
        GitHubChecker::new()
    }
}

/// GitHub answers 404 for a missing user, so the status code alone decides.
impl Site for GitHubChecker {
    open spec fn name_spec(&self) -> Seq<char> {
        "GitHub"@
    }

    open spec fn url_pattern_spec(&self) -> Seq<char> {
        "https://github.com/{}"@
    }

    open spec fn site_type_spec(&self) -> SiteType {
        SiteType::Dev
    }

    fn name(&self) -> (r: &str) {
        "GitHub"
    }

    fn url_pattern(&self) -> (r: &str) {
        "https://github.com/{}"
    }

    fn site_type(&self) -> (r: SiteType) {
        SiteType::Dev
    }
}

} // verus!
