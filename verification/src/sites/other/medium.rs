//! Medium username checker.

use crate::data::site_info::SiteType;
use crate::sites::site::{body_bytes, Site};
use crate::utils::text::{contains_marker, has_marker};
use vstd::prelude::*;

verus! {

/// The page says that there is no such author. The markers are matched as
/// they are written, capitals included.
pub open spec fn medium_says_missing(body: Seq<u8>) -> bool {
    has_marker(body, "PAGE NOT FOUND") || has_marker(body, "Out of nothing, something.")
}

/// How Medium's answer is read: 404 means not found; a 2xx answer with a
/// body means found unless the body says that the page is missing; a 2xx
/// answer without a body is uncertain, because Medium answers 2xx for
/// missing authors too; any other status is uncertain.
pub open spec fn medium_classification(status: u16, body: Option<Seq<u8>>) -> Option<bool> {
    if status == 404 {
        Some(false)
    } else if 200 <= status <= 299 {
        match body {
            Some(text) => Some(!medium_says_missing(text)),
            None => None,
        }
    } else {
        None
    }
}

/// Whether a body of Medium says that the page is missing.
pub fn medium_missing_in_body(body: &[u8]) -> (r: bool)
    ensures
        r == medium_says_missing(body@),
{
    if contains_marker(body, "PAGE NOT FOUND") {
        return true;
    }
    contains_marker(body, "Out of nothing, something.")
}

/// Medium username checker.
pub struct MediumChecker;

impl MediumChecker {
    /// A checker for Medium.
    pub fn new() -> (r: MediumChecker) {
        MediumChecker
    }
}

impl Default for MediumChecker {
    fn default() -> (r: MediumChecker) {
        MediumChecker::new()
    }
}

/// Medium answers 2xx for missing authors too, with a page that says so.
impl Site for MediumChecker {
    open spec fn name_spec(&self) -> Seq<char> {
        "Medium"@
    }

    open spec fn url_pattern_spec(&self) -> Seq<char> {
        "https://medium.com/@{}"@
    }

    open spec fn site_type_spec(&self) -> SiteType {
        SiteType::Other
    }

    fn name(&self) -> (r: &str) {
        "Medium"
    }

    fn url_pattern(&self) -> (r: &str) {
        "https://medium.com/@{}"
    }

    fn site_type(&self) -> (r: SiteType) {
        SiteType::Other
    }

    fn parse_response(&self, _username: &str, status_code: u16, body: Option<&str>) -> (r: Option<
        bool,
    >)
        ensures
            r == medium_classification(status_code, body_bytes(body)),
            body is None && status_code != 404 ==> r is None,
    {
        if status_code == 404 {
            Some(false)
        } else if 200 <= status_code && status_code <= 299 {
            match body {
                Some(text) => Some(!medium_missing_in_body(text.as_bytes())),
                None => None,
            }
        } else {
            None
        }
    }

    fn http_method(&self) -> (r: &'static str)
        ensures
            r@ == "GET"@,
    {
        "GET"
    }
}

} // verus!
