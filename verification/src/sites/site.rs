//! The description of one checkable site.

use crate::data::site_info::SiteType;
use crate::utils::error::SleuthError;
use crate::utils::text::{bytes_of, joined, replace_all, replaced};
use vstd::prelude::*;

verus! {

/// The placeholder of a URL pattern, which the username replaces.
pub open spec fn placeholder() -> Seq<char> {
    "{}"@
}

/// The address that a URL pattern gives for a username.
pub open spec fn url_for(pattern: Seq<char>, username: Seq<char>) -> Seq<char> {
    replaced(pattern, placeholder(), username)
}

/// What the status code alone says: any 2xx means found, 404 means not
/// found, anything else is uncertain.
pub open spec fn default_classification(status: u16) -> Option<bool> {
    if 200 <= status <= 299 {
        Some(true)
    } else if status == 404 {
        Some(false)
    } else {
        None
    }
}

/// The characters of an optional body.
pub open spec fn body_text(body: Option<&str>) -> Option<Seq<char>> {
    match body {
        Some(text) => Some(text@),
        None => None,
    }
}

/// The UTF-8 bytes of an optional text.
pub open spec fn text_bytes(text: Option<Seq<char>>) -> Option<Seq<u8>> {
    match text {
        Some(t) => Some(bytes_of(t)),
        None => None,
    }
}

/// The UTF-8 bytes of an optional body.
pub open spec fn body_bytes(body: Option<&str>) -> Option<Seq<u8>> {
    text_bytes(body_text(body))
}

/// `url` is an address that the site builds for the username.
pub open spec fn builds<S: Site + ?Sized>(site: &S, username: Seq<char>, url: Seq<char>) -> bool {
    exists|name: &str, built: String|
        name@ == username && built@ == url && call_ensures(S::build_url, (site, name), built)
}

/// `answer` is a reading that the site gives of a response.
pub open spec fn classifies<S: Site + ?Sized>(
    site: &S,
    username: Seq<char>,
    status: u16,
    body: Option<Seq<char>>,
    answer: Option<bool>,
) -> bool {
    exists|name: &str, text: Option<&str>|
        name@ == username && body_text(text) == body && call_ensures(
            S::parse_response,
            (site, name, status, text),
            answer,
        )
}

/// `method` is a request method that the site asks for.
pub open spec fn asks_for<S: Site + ?Sized>(site: &S, method: Seq<char>) -> bool {
    exists|word: &'static str| word@ == method && call_ensures(S::http_method, (site,), word)
}

/// `rendering` is what the site says of its need for a browser.
pub open spec fn renders<S: Site + ?Sized>(site: &S, rendering: bool) -> bool {
    call_ensures(S::requires_browser, (site,), rendering)
}

/// The site answers steadily: whenever it is asked the same, it says the
/// same. It builds one address for a username, asks for one request method,
/// says one thing of its need for a browser, and reads a response in one
/// way.
pub open spec fn is_steady<S: Site + ?Sized>(site: &S) -> bool {
    &&& forall|username: Seq<char>, one: Seq<char>, other: Seq<char>|
        #![trigger builds(site, username, one), builds(site, username, other)]
        builds(site, username, one) && builds(site, username, other) ==> one == other
    &&& forall|one: Seq<char>, other: Seq<char>|
        #![trigger asks_for(site, one), asks_for(site, other)]
        asks_for(site, one) && asks_for(site, other) ==> one == other
    &&& forall|one: bool, other: bool|
        #![trigger renders(site, one), renders(site, other)]
        renders(site, one) && renders(site, other) ==> one == other
    &&& forall|
        username: Seq<char>,
        status: u16,
        body: Option<Seq<char>>,
        one: Option<bool>,
        other: Option<bool>,
    |
        #![trigger classifies(site, username, status, body, one), classifies(site, username, status, body, other)]
        classifies(site, username, status, body, one) && classifies(
            site,
            username,
            status,
            body,
            other,
        ) ==> one == other
}

/// Classifies a response by its status code alone.
pub fn classify_by_status(status_code: u16) -> (r: Option<bool>)
    ensures
        r == default_classification(status_code),
{
    if 200 <= status_code && status_code <= 299 {
        Some(true)
    } else if status_code == 404 {
        Some(false)
    } else {
        None
    }
}

/// How often the placeholder stands in the bytes of a URL pattern, counted
/// from left to right without overlap.
pub open spec fn placeholders(pattern: Seq<u8>) -> nat
    decreases pattern.len(),
{
    if pattern.len() < 2 {
        0
    } else if pattern[0] == 0x7b && pattern[1] == 0x7d {
        1 + placeholders(pattern.skip(2))
    } else {
        placeholders(pattern.skip(1))
    }
}

/// A URL pattern is usable when the placeholder stands in it exactly once.
pub open spec fn pattern_is_valid(pattern: Seq<char>) -> bool {
    placeholders(bytes_of(pattern)) == 1
}

/// How often the placeholder stands in a URL pattern.
pub fn count_placeholders(pattern: &str) -> (r: usize)
    ensures
        r == placeholders(bytes_of(pattern@)),
{
    let bytes = pattern.as_bytes();
    let mut count: usize = 0;
    let mut i: usize = 0;
    proof {
        assert(bytes@.skip(0) =~= bytes@);
    }
    while i < bytes.len()
        invariant
            i <= bytes@.len(),
            count <= i,
            count + placeholders(bytes@.skip(i as int)) == placeholders(bytes@),
        decreases bytes@.len() - i,
    {
        proof {
            assert(bytes@.skip(i as int).skip(1) =~= bytes@.skip(i + 1));
            if i + 1 < bytes@.len() {
                assert(bytes@.skip(i as int).skip(2) =~= bytes@.skip(i + 2));
            }
            assert(bytes@.skip(i as int).len() == bytes@.len() - i);
        }
        if i + 1 < bytes.len() && bytes[i] == 0x7b && bytes[i + 1] == 0x7d {
            count += 1;
            i += 2;
        } else {
            i += 1;
        }
    }
    proof {
        assert(bytes@.skip(i as int).len() == 0);
    }
    count
}

/// Checks that the URL pattern of a site holds the placeholder exactly once.
/// A site with another pattern is refused, with its name in the error.
pub fn validate_site<S: Site + ?Sized>(site: &S) -> (r: Result<(), SleuthError>)
    ensures
        if pattern_is_valid(site.url_pattern_spec()) {
            r is Ok
        } else {
            r matches Err(SleuthError::Validation(what)) && what@
                == "URL pattern needs one placeholder: "@ + site.name_spec()
        },
{
    if count_placeholders(site.url_pattern()) == 1 {
        Ok(())
    } else {
        Err(SleuthError::Validation(joined("URL pattern needs one placeholder: ", site.name())))
    }
}

/// A site on which usernames can be looked up.
///
/// A site builds the address to probe and interprets the response. It makes
/// no request itself. The other methods have defaults that a site overrides
/// when the platform answers 200 for missing users too, or renders its pages
/// in the browser.
///
/// Name, URL pattern and category are taken to be fixed data of the site:
/// `name`, `url_pattern` and `site_type` return at every call what
/// `name_spec`, `url_pattern_spec` and `site_type_spec` say. For the sites of
/// this library that is proved. For a site that is written elsewhere it is
/// taken on trust, and everything that the filters and the scan state about
/// names and categories rests on it. Of the other methods nothing is taken
/// on trust: contracts speak of what a call of them returned.
pub trait Site: Send + Sync {
    /// The name of the site, as a sequence of characters. A site states
    /// what it is; where it does not, nothing is known of it.
    open spec fn name_spec(&self) -> Seq<char> {
        arbitrary()
    }

    /// The URL pattern of the site, as a sequence of characters. A site
    /// states what it is; where it does not, nothing is known of it.
    open spec fn url_pattern_spec(&self) -> Seq<char> {
        arbitrary()
    }

    /// The category of the site. A site states what it is; where it does
    /// not, nothing is known of it.
    open spec fn site_type_spec(&self) -> SiteType {
        arbitrary()
    }

    /// Name of the site.
    fn name(&self) -> (r: &str)
        ensures
            r@ == self.name_spec(),
    ;

    /// The URL pattern, with `{}` where the username goes.
    fn url_pattern(&self) -> (r: &str)
        ensures
            r@ == self.url_pattern_spec(),
    ;

    /// The category of the site.
    fn site_type(&self) -> (r: SiteType)
        ensures
            r == self.site_type_spec(),
    ;

    /// The address to probe for a username.
    fn build_url(&self, username: &str) -> (r: String)
        default_ensures
            r@ == url_for(self.url_pattern_spec(), username@),
    {
        proof {
            reveal_strlit("{}");
        }
        replace_all(self.url_pattern(), "{}", username)
    }

    /// Whether the username exists, judged from the response: `Some(true)`
    /// if it does, `Some(false)` if it does not, `None` if the response does
    /// not tell.
    fn parse_response(&self, username: &str, status_code: u16, body: Option<&str>) -> (r: Option<
        bool,
    >)
        default_ensures
            r == default_classification(status_code),
    {
        classify_by_status(status_code)
    }

    /// The request method to probe with. HEAD is cheap; GET brings the body.
    fn http_method(&self) -> (r: &'static str)
        default_ensures
            r@ == "HEAD"@,
    {
        "HEAD"
    }

    /// Headers to send with the probe.
    fn headers(&self) -> (r: Vec<(&'static str, &'static str)>)
        default_ensures
            r@.len() == 0,
    {
        Vec::new()
    }

    /// Whether the site needs a browser that runs its scripts before the
    /// body can be classified.
    fn requires_browser(&self) -> (r: bool)
        default_ensures
            !r,
    {
        false
    }
}

} // verus!
