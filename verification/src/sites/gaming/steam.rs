//! Steam username checker.

use crate::data::site_info::SiteType;
use crate::sites::site::{body_bytes, Site};
use crate::utils::text::{contains_marker, fold_ascii, folded, has_marker};
use vstd::prelude::*;

verus! {

/// A page of Steam under this many bytes is an error page.
pub const STEAM_ERROR_PAGE_BYTES: usize = 5000;

/// The page has the structure of Steam's error page. `page` is case-folded.
pub open spec fn steam_has_error_structure(page: Seq<u8>) -> bool {
    ||| has_marker(page, "steam community :: error")
    ||| has_marker(page, "fatalerror.css")
    ||| has_marker(page, "error_ctn")
    ||| has_marker(page, "class=\"error")
}

/// The page has the structure of a profile. `page` is case-folded.
pub open spec fn steam_has_profile_structure(page: Seq<u8>) -> bool {
    ||| has_marker(page, "profile_page")
    ||| (has_marker(page, "persona_name") && has_marker(page, "profile_content"))
    ||| has_marker(page, "profile_header")
    ||| has_marker(page, "playeravatar")
    ||| has_marker(page, "profile_badges")
    ||| has_marker(page, "profile_summary")
}

/// A body shows a profile when it has no error structure and has profile
/// structure. Everything else counts as not found.
pub open spec fn steam_body_shows_profile(body: Seq<u8>) -> bool {
    &&& !steam_has_error_structure(folded(body))
    &&& steam_has_profile_structure(folded(body))
}

/// How Steam's answer is read: 404 means not found; a 2xx answer is decided
/// by its body and stays uncertain without one; any other status is
/// uncertain.
pub open spec fn steam_classification(status: u16, body: Option<Seq<u8>>) -> Option<bool> {
    if status == 404 {
        Some(false)
    } else if 200 <= status <= 299 {
        match body {
            Some(text) => Some(steam_body_shows_profile(text)),
            None => None,
        }
    } else {
        None
    }
}

/// Whether a body of Steam shows a profile.
pub fn steam_profile_in_body(body: &[u8]) -> (r: bool)
    ensures
        r == steam_body_shows_profile(body@),
{
    let page = fold_ascii(body);
    let has_error_structure = contains_marker(page.as_slice(), "steam community :: error")
        || contains_marker(page.as_slice(), "fatalerror.css") || contains_marker(
        page.as_slice(),
        "error_ctn",
    ) || contains_marker(page.as_slice(), "class=\"error");
    if has_error_structure {
        return false;
    }
    let has_profile_structure = contains_marker(page.as_slice(), "profile_page") || (
    contains_marker(page.as_slice(), "persona_name") && contains_marker(
        page.as_slice(),
        "profile_content",
    )) || contains_marker(page.as_slice(), "profile_header") || contains_marker(
        page.as_slice(),
        "playeravatar",
    ) || contains_marker(page.as_slice(), "profile_badges") || contains_marker(
        page.as_slice(),
        "profile_summary",
    );
    if has_profile_structure {
        return true;
    }
    if body.len() < STEAM_ERROR_PAGE_BYTES {
        return false;
    }
    false
}

/// Steam username checker.
pub struct SteamChecker;

impl SteamChecker {
    /// A checker for Steam.
    pub fn new() -> (r: SteamChecker) {
        SteamChecker
    }
}

impl Default for SteamChecker {
    fn default() -> (r: SteamChecker) {
        SteamChecker::new()
    }
}

/// Steam answers 2xx with an error page for a missing user, so the body
/// decides.
impl Site for SteamChecker {
    open spec fn name_spec(&self) -> Seq<char> {
        "Steam"@
    }

    open spec fn url_pattern_spec(&self) -> Seq<char> {
        "https://steamcommunity.com/id/{}"@
    }

    open spec fn site_type_spec(&self) -> SiteType {
        SiteType::Gaming
    }

    fn name(&self) -> (r: &str) {
        "Steam"
    }

    fn url_pattern(&self) -> (r: &str) {
        "https://steamcommunity.com/id/{}"
    }

    fn site_type(&self) -> (r: SiteType) {
        SiteType::Gaming
    }

    fn parse_response(&self, _username: &str, status_code: u16, body: Option<&str>) -> (r: Option<
        bool,
    >)
        ensures
            r == steam_classification(status_code, body_bytes(body)),
            body is None && status_code != 404 ==> r is None,
    {
        if status_code == 404 {
            Some(false)
        } else if 200 <= status_code && status_code <= 299 {
            match body {
                Some(text) => Some(steam_profile_in_body(text.as_bytes())),
                None => None,
            }
        } else {
            None
        }
    }

    fn http_method(&self) -> (r: &'static str)
        ensures
            r@ == "GET"@,
    {
        "GET"
    }
}

} // verus!
