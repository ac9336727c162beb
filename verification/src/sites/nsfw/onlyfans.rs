//! OnlyFans username checker.

use crate::data::site_info::SiteType;
use crate::sites::site::{body_bytes, Site};
use crate::utils::text::{contains_marker, fold_ascii, folded, has_marker};
use vstd::prelude::*;

verus! {

/// A page of OnlyFans under this many bytes is an error page.
pub const ONLYFANS_ERROR_PAGE_BYTES: usize = 3000;

/// A page of OnlyFans over this many bytes, without error structure, is a
/// profile.
pub const ONLYFANS_LARGE_PAGE_BYTES: usize = 20000;

/// The page has the structure of the site's error page. `page` is
/// case-folded.
pub open spec fn onlyfans_has_error_structure(page: Seq<u8>) -> bool {
    ||| has_marker(page, "b-404")
    ||| has_marker(page, "b-wrapper-404")
    ||| has_marker(page, "b-404__title")
    ||| has_marker(page, "b-404__description")
}

/// The page has the structure of a profile. `page` is case-folded.
pub open spec fn onlyfans_has_profile_structure(page: Seq<u8>) -> bool {
    ||| has_marker(page, "b-profile")
    ||| has_marker(page, "b-profile__header")
    ||| has_marker(page, "b-profile__user")
    ||| has_marker(page, "b-profile__content")
    ||| has_marker(page, "b-profile-info-card")
    ||| has_marker(page, "b-username")
    ||| has_marker(page, "b-username-row")
    ||| has_marker(page, "g-avatar")
    ||| has_marker(page, "b-friend__avatar")
    ||| has_marker(page, "profileposttab")
    ||| has_marker(page, "icon-profile")
    ||| has_marker(page, "icon-media")
    ||| has_marker(page, "icon-post")
}

/// A body shows a profile when it has no error structure and either has
/// profile structure or is a large page. Everything else counts as not found.
pub open spec fn onlyfans_body_shows_profile(body: Seq<u8>) -> bool {
    &&& !onlyfans_has_error_structure(folded(body))
    &&& (onlyfans_has_profile_structure(folded(body)) || body.len() > ONLYFANS_LARGE_PAGE_BYTES)
}

/// How the site's answer is read: 404 means not found; a 2xx answer is
/// decided by its body and stays uncertain without one; any other status is
/// uncertain.
pub open spec fn onlyfans_classification(status: u16, body: Option<Seq<u8>>) -> Option<bool> {
    if status == 404 {
        Some(false)
    } else if 200 <= status <= 299 {
        match body {
            Some(text) => Some(onlyfans_body_shows_profile(text)),
            None => None,
        }
    } else {
        None
    }
}

/// Whether a body of OnlyFans shows a profile.
pub fn onlyfans_profile_in_body(body: &[u8]) -> (r: bool)
    ensures
        r == onlyfans_body_shows_profile(body@),
{
    let page = fold_ascii(body);
    let has_error_structure = contains_marker(page.as_slice(), "b-404") || contains_marker(
        page.as_slice(),
        "b-wrapper-404",
    ) || contains_marker(page.as_slice(), "b-404__title") || contains_marker(
        page.as_slice(),
        "b-404__description",
    );
    if has_error_structure {
        return false;
    }
    let has_profile_structure = contains_marker(page.as_slice(), "b-profile") || contains_marker(
        page.as_slice(),
        "b-profile__header",
    ) || contains_marker(page.as_slice(), "b-profile__user") || contains_marker(
        page.as_slice(),
        "b-profile__content",
    ) || contains_marker(page.as_slice(), "b-profile-info-card") || contains_marker(
        page.as_slice(),
        "b-username",
    ) || contains_marker(page.as_slice(), "b-username-row") || contains_marker(
        page.as_slice(),
        "g-avatar",
    ) || contains_marker(page.as_slice(), "b-friend__avatar") || contains_marker(
        page.as_slice(),
        "profileposttab",
    ) || contains_marker(page.as_slice(), "icon-profile") || contains_marker(
        page.as_slice(),
        "icon-media",
    ) || contains_marker(page.as_slice(), "icon-post");
    if has_profile_structure {
        return true;
    }
    if body.len() < ONLYFANS_ERROR_PAGE_BYTES {
        return false;
    }
    if body.len() > ONLYFANS_LARGE_PAGE_BYTES {
        return true;
    }
    false
}

/// OnlyFans username checker.
pub struct OnlyFansChecker;

impl OnlyFansChecker {
    /// A checker for OnlyFans.
    pub fn new() -> (r: OnlyFansChecker) {
        OnlyFansChecker
    }
}

impl Default for OnlyFansChecker {
    fn default() -> (r: OnlyFansChecker) {
        OnlyFansChecker::new()
    }
}

/// OnlyFans renders its pages in the browser and answers 2xx for missing
/// users too, so the body decides.
impl Site for OnlyFansChecker {
    open spec fn name_spec(&self) -> Seq<char> {
        "OnlyFans"@
    }

    open spec fn url_pattern_spec(&self) -> Seq<char> {
        "https://onlyfans.com/{}"@
    }

    open spec fn site_type_spec(&self) -> SiteType {
        SiteType::Nsfw
    }

    fn name(&self) -> (r: &str) {
        "OnlyFans"
    }

    fn url_pattern(&self) -> (r: &str) {
        "https://onlyfans.com/{}"
    }

    fn site_type(&self) -> (r: SiteType) {
        SiteType::Nsfw
    }

    fn requires_browser(&self) -> (r: bool)
        ensures
            r,
    {
        true
    }

    fn parse_response(&self, _username: &str, status_code: u16, body: Option<&str>) -> (r: Option<
        bool,
    >)
        ensures
            r == onlyfans_classification(status_code, body_bytes(body)),
            body is None && status_code != 404 ==> r is None,
    {
        if status_code == 404 {
            Some(false)
        } else if 200 <= status_code && status_code <= 299 {
            match body {
                Some(text) => Some(onlyfans_profile_in_body(text.as_bytes())),
                None => None,
            }
        } else {
            None
        }
    }

    fn http_method(&self) -> (r: &'static str)
        ensures
            r@ == "GET"@,
    {
        "GET"
    }
}

} // verus!
