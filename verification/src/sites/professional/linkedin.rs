//! LinkedIn username checker.

use crate::data::site_info::SiteType;
use crate::sites::site::Site;
use vstd::prelude::*;

verus! {

/// LinkedIn username checker.
pub struct LinkedInChecker;

impl LinkedInChecker {
    /// A checker for LinkedIn.
    pub fn new() -> (r: LinkedInChecker) {
        LinkedInChecker
    }
}

impl Default for LinkedInChecker {
    fn default() -> (r: LinkedInChecker) {
        LinkedInChecker::new()
    }
}

/// LinkedIn answers 404 for a missing user, so the status code alone decides.
impl Site for LinkedInChecker {
    open spec fn name_spec(&self) -> Seq<char> {
        "LinkedIn"@
    }

    open spec fn url_pattern_spec(&self) -> Seq<char> {
        "https://www.linkedin.com/in/{}"@
    }

    open spec fn site_type_spec(&self) -> SiteType {
        SiteType::Professional
    }

    fn name(&self) -> (r: &str) {
        "LinkedIn"
    }

    fn url_pattern(&self) -> (r: &str) {
        "https://www.linkedin.com/in/{}"
    }

    fn site_type(&self) -> (r: SiteType) {
        SiteType::Professional
    }
}

} // verus!
