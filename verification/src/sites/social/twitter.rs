//! Twitter/X username checker.

use crate::data::site_info::SiteType;
use crate::sites::site::Site;
use vstd::prelude::*;

verus! {

/// Twitter/X username checker.
pub struct TwitterChecker;

impl TwitterChecker {
    /// A checker for Twitter.
    pub fn new() -> (r: TwitterChecker) {
        TwitterChecker
    }
}

impl Default for TwitterChecker {
    fn default() -> (r: TwitterChecker) {
        TwitterChecker::new()
    }
}

/// Twitter answers 404 for a missing user, so the status code alone decides.
impl Site for TwitterChecker {
    open spec fn name_spec(&self) -> Seq<char> {
        "Twitter"@
    }

    open spec fn url_pattern_spec(&self) -> Seq<char> {
        "https://x.com/{}"@
    }

    open spec fn site_type_spec(&self) -> SiteType {
        SiteType::Social
    }

    fn name(&self) -> (r: &str) {
        "Twitter"
    }

    fn url_pattern(&self) -> (r: &str) {
        "https://x.com/{}"
    }

    fn site_type(&self) -> (r: SiteType) {
        SiteType::Social
    }
}

} // verus!
