//! Reddit username checker.

use crate::data::site_info::SiteType;
use crate::sites::site::{body_bytes, Site};
use crate::utils::text::{contains_marker, fold_ascii, folded, has_marker};
use vstd::prelude::*;

verus! {

/// A profile page of Reddit is larger than this many bytes.
pub const REDDIT_PROFILE_BYTES: usize = 50000;

/// A page of Reddit under this many bytes is an error page.
pub const REDDIT_ERROR_PAGE_BYTES: usize = 10000;

/// The page says that there is no such user. `page` is case-folded.
pub open spec fn reddit_says_missing(page: Seq<u8>) -> bool {
    has_marker(page, "sorry, there isn") || has_marker(page, "page not found")
}

/// The page carries the markup of a profile. `page` is case-folded.
pub open spec fn reddit_has_profile_markup(page: Seq<u8>) -> bool {
    ||| has_marker(page, "shreddit-user-profile")
    ||| has_marker(page, "user-profile")
    ||| has_marker(page, "profile-overview")
    ||| has_marker(page, "user-activity")
    ||| (has_marker(page, "karma") && has_marker(page, "cake-day"))
    ||| has_marker(page, "reddit-profile")
}

/// A body shows a profile when it does not say that the user is missing,
/// carries profile markup and is larger than a profile page at least is.
/// Everything else counts as not found, so that blocked and empty pages give
/// no false positive.
pub open spec fn reddit_body_shows_profile(body: Seq<u8>) -> bool {
    &&& !reddit_says_missing(folded(body))
    &&& reddit_has_profile_markup(folded(body))
    &&& body.len() > REDDIT_PROFILE_BYTES
}

/// How Reddit's answer is read: 404 means not found; a 2xx answer is decided
/// by its body and stays uncertain without one; any other status is
/// uncertain.
pub open spec fn reddit_classification(status: u16, body: Option<Seq<u8>>) -> Option<bool> {
    if status == 404 {
        Some(false)
    } else if 200 <= status <= 299 {
        match body {
            Some(text) => Some(reddit_body_shows_profile(text)),
            None => None,
        }
    } else {
        None
    }
}

/// Whether a body of Reddit shows a profile.
pub fn reddit_profile_in_body(body: &[u8]) -> (r: bool)
    ensures
        r == reddit_body_shows_profile(body@),
{
    let page = fold_ascii(body);
    if contains_marker(page.as_slice(), "sorry, there isn") || contains_marker(
        page.as_slice(),
        "page not found",
    ) {
        return false;
    }
    let has_profile_indicators = contains_marker(page.as_slice(), "shreddit-user-profile")
        || contains_marker(page.as_slice(), "user-profile") || contains_marker(
        page.as_slice(),
        "profile-overview",
    ) || contains_marker(page.as_slice(), "user-activity") || (contains_marker(
        page.as_slice(),
        "karma",
    ) && contains_marker(page.as_slice(), "cake-day")) || contains_marker(
        page.as_slice(),
        "reddit-profile",
    );
    let has_substantial_content = body.len() > REDDIT_PROFILE_BYTES;
    if has_profile_indicators && has_substantial_content {
        return true;
    }
    if body.len() < REDDIT_ERROR_PAGE_BYTES {
        return false;
    }
    false
}

/// Reddit username checker.
pub struct RedditChecker;

impl RedditChecker {
    /// A checker for Reddit.
    pub fn new() -> (r: RedditChecker) {
        RedditChecker
    }
}

impl Default for RedditChecker {
    fn default() -> (r: RedditChecker) {
        RedditChecker::new()
    }
}

/// Reddit renders its pages in the browser and answers 2xx for pages that
/// show no profile, so the body decides.
impl Site for RedditChecker {
    open spec fn name_spec(&self) -> Seq<char> {
        "Reddit"@
    }

    open spec fn url_pattern_spec(&self) -> Seq<char> {
        "https://www.reddit.com/user/{}"@
    }

    open spec fn site_type_spec(&self) -> SiteType {
        SiteType::Forum
    }

    fn name(&self) -> (r: &str) {
        "Reddit"
    }

    fn url_pattern(&self) -> (r: &str) {
        "https://www.reddit.com/user/{}"
    }

    fn site_type(&self) -> (r: SiteType) {
        SiteType::Forum
    }

    fn requires_browser(&self) -> (r: bool)
        ensures
            r,
    {
        true
    }

    fn parse_response(&self, _username: &str, status_code: u16, body: Option<&str>) -> (r: Option<
        bool,
    >)
        ensures
            r == reddit_classification(status_code, body_bytes(body)),
            body is None && status_code != 404 ==> r is None,
    {
        if status_code == 404 {
            Some(false)
        } else if 200 <= status_code && status_code <= 299 {
            match body {
                Some(text) => Some(reddit_profile_in_body(text.as_bytes())),
                None => None,
            }
        } else {
            None
        }
    }

    fn http_method(&self) -> (r: &'static str)
        ensures
            r@ == "GET"@,
    {
        "GET"
    }
}

} // verus!
