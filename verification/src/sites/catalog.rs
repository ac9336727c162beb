//! The sites that the library knows, as one type that a registry can hold.

use crate::data::site_info::SiteType;
use crate::sites::dev::GitHubChecker;
use crate::sites::forum::reddit::reddit_classification;
use crate::sites::forum::RedditChecker;
use crate::sites::gaming::steam::steam_classification;
use crate::sites::gaming::SteamChecker;
use crate::sites::nsfw::onlyfans::onlyfans_classification;
use crate::sites::nsfw::OnlyFansChecker;
use crate::sites::other::medium::medium_classification;
use crate::sites::other::MediumChecker;
use crate::sites::professional::LinkedInChecker;
use crate::sites::site::{
    asks_for,
    body_bytes,
    builds,
    classifies,
    default_classification,
    is_steady,
    renders,
    text_bytes,
    url_for,
    Site,
};
use crate::sites::social::TwitterChecker;
use vstd::prelude::*;

verus! {

/// One of the sites that the library knows.
pub enum KnownSite {
    /// GitHub.
    GitHub(GitHubChecker),
    /// Twitter/X.
    Twitter(TwitterChecker),
    /// LinkedIn.
    LinkedIn(LinkedInChecker),
    /// Steam.
    Steam(SteamChecker),
    /// Reddit.
    Reddit(RedditChecker),
    /// OnlyFans.
    OnlyFans(OnlyFansChecker),
    /// Medium.
    Medium(MediumChecker),
}

impl KnownSite {
    /// Whether the site needs a browser that runs its scripts.
    pub open spec fn rendering(self) -> bool {
        self is Reddit || self is OnlyFans
    }

    /// Whether the site is probed with GET, for the body.
    pub open spec fn reads_body(self) -> bool {
        self is Steam || self is Reddit || self is OnlyFans || self is Medium
    }

    /// How the site reads a response.
    pub open spec fn classification(self, status: u16, body: Option<Seq<u8>>) -> Option<bool> {
        match self {
            KnownSite::GitHub(_) => default_classification(status),
            KnownSite::Twitter(_) => default_classification(status),
            KnownSite::LinkedIn(_) => default_classification(status),
            KnownSite::Steam(_) => steam_classification(status, body),
            KnownSite::Reddit(_) => reddit_classification(status, body),
            KnownSite::OnlyFans(_) => onlyfans_classification(status, body),
            KnownSite::Medium(_) => medium_classification(status, body),
        }
    }

    /// Whether the status code alone decides for this site when the
    /// response has no body: 404 does for every site, a 2xx status only for
    /// the sites that do not read the body.
    pub open spec fn status_decides(self, status: u16) -> bool {
        status == 404 || (200 <= status <= 299 && !self.reads_body())
    }
}

impl Site for KnownSite {
    open spec fn name_spec(&self) -> Seq<char> {
        match self {
            KnownSite::GitHub(site) => site.name_spec(),
            KnownSite::Twitter(site) => site.name_spec(),
            KnownSite::LinkedIn(site) => site.name_spec(),
            KnownSite::Steam(site) => site.name_spec(),
            KnownSite::Reddit(site) => site.name_spec(),
            KnownSite::OnlyFans(site) => site.name_spec(),
            KnownSite::Medium(site) => site.name_spec(),
        }
    }

    open spec fn url_pattern_spec(&self) -> Seq<char> {
        match self {
            KnownSite::GitHub(site) => site.url_pattern_spec(),
            KnownSite::Twitter(site) => site.url_pattern_spec(),
            KnownSite::LinkedIn(site) => site.url_pattern_spec(),
            KnownSite::Steam(site) => site.url_pattern_spec(),
            KnownSite::Reddit(site) => site.url_pattern_spec(),
            KnownSite::OnlyFans(site) => site.url_pattern_spec(),
            KnownSite::Medium(site) => site.url_pattern_spec(),
        }
    }

    open spec fn site_type_spec(&self) -> SiteType {
        match self {
            KnownSite::GitHub(site) => site.site_type_spec(),
            KnownSite::Twitter(site) => site.site_type_spec(),
            KnownSite::LinkedIn(site) => site.site_type_spec(),
            KnownSite::Steam(site) => site.site_type_spec(),
            KnownSite::Reddit(site) => site.site_type_spec(),
            KnownSite::OnlyFans(site) => site.site_type_spec(),
            KnownSite::Medium(site) => site.site_type_spec(),
        }
    }

    fn name(&self) -> (r: &str) {
        match self {
            KnownSite::GitHub(site) => site.name(),
            KnownSite::Twitter(site) => site.name(),
            KnownSite::LinkedIn(site) => site.name(),
            KnownSite::Steam(site) => site.name(),
            KnownSite::Reddit(site) => site.name(),
            KnownSite::OnlyFans(site) => site.name(),
            KnownSite::Medium(site) => site.name(),
        }
    }

    fn url_pattern(&self) -> (r: &str) {
        match self {
            KnownSite::GitHub(site) => site.url_pattern(),
            KnownSite::Twitter(site) => site.url_pattern(),
            KnownSite::LinkedIn(site) => site.url_pattern(),
            KnownSite::Steam(site) => site.url_pattern(),
            KnownSite::Reddit(site) => site.url_pattern(),
            KnownSite::OnlyFans(site) => site.url_pattern(),
            KnownSite::Medium(site) => site.url_pattern(),
        }
    }

    fn site_type(&self) -> (r: SiteType) {
        match self {
            KnownSite::GitHub(site) => site.site_type(),
            KnownSite::Twitter(site) => site.site_type(),
            KnownSite::LinkedIn(site) => site.site_type(),
            KnownSite::Steam(site) => site.site_type(),
            KnownSite::Reddit(site) => site.site_type(),
            KnownSite::OnlyFans(site) => site.site_type(),
            KnownSite::Medium(site) => site.site_type(),
        }
    }

    fn build_url(&self, username: &str) -> (r: String)
        ensures
            r@ == url_for(self.url_pattern_spec(), username@),
    {
        match self {
            KnownSite::GitHub(site) => site.build_url(username),
            KnownSite::Twitter(site) => site.build_url(username),
            KnownSite::LinkedIn(site) => site.build_url(username),
            KnownSite::Steam(site) => site.build_url(username),
            KnownSite::Reddit(site) => site.build_url(username),
            KnownSite::OnlyFans(site) => site.build_url(username),
            KnownSite::Medium(site) => site.build_url(username),
        }
    }

    fn parse_response(&self, username: &str, status_code: u16, body: Option<&str>) -> (r: Option<
        bool,
    >)
        ensures
            r == self.classification(status_code, body_bytes(body)),
    {
        match self {
            KnownSite::GitHub(site) => site.parse_response(username, status_code, body),
            KnownSite::Twitter(site) => site.parse_response(username, status_code, body),
            KnownSite::LinkedIn(site) => site.parse_response(username, status_code, body),
            KnownSite::Steam(site) => site.parse_response(username, status_code, body),
            KnownSite::Reddit(site) => site.parse_response(username, status_code, body),
            KnownSite::OnlyFans(site) => site.parse_response(username, status_code, body),
            KnownSite::Medium(site) => site.parse_response(username, status_code, body),
        }
    }

    fn http_method(&self) -> (r: &'static str)
        ensures
            r@ == (if self.reads_body() {
                "GET"@
            } else {
                "HEAD"@
            }),
    {
        match self {
            KnownSite::GitHub(site) => site.http_method(),
            KnownSite::Twitter(site) => site.http_method(),
            KnownSite::LinkedIn(site) => site.http_method(),
            KnownSite::Steam(site) => site.http_method(),
            KnownSite::Reddit(site) => site.http_method(),
            KnownSite::OnlyFans(site) => site.http_method(),
            KnownSite::Medium(site) => site.http_method(),
        }
    }

    fn headers(&self) -> (r: Vec<(&'static str, &'static str)>)
        ensures
            r@.len() == 0,
    {
        match self {
            KnownSite::GitHub(site) => site.headers(),
            KnownSite::Twitter(site) => site.headers(),
            KnownSite::LinkedIn(site) => site.headers(),
            KnownSite::Steam(site) => site.headers(),
            KnownSite::Reddit(site) => site.headers(),
            KnownSite::OnlyFans(site) => site.headers(),
            KnownSite::Medium(site) => site.headers(),
        }
    }

    fn requires_browser(&self) -> (r: bool)
        ensures
            r == self.rendering(),
    {
        match self {
            KnownSite::GitHub(site) => site.requires_browser(),
            KnownSite::Twitter(site) => site.requires_browser(),
            KnownSite::LinkedIn(site) => site.requires_browser(),
            KnownSite::Steam(site) => site.requires_browser(),
            KnownSite::Reddit(site) => site.requires_browser(),
            KnownSite::OnlyFans(site) => site.requires_browser(),
            KnownSite::Medium(site) => site.requires_browser(),
        }
    }
}

/// A known site reads a response by its rule, every time.
pub proof fn lemma_known_site_reads_by_rule(
    site: &KnownSite,
    username: Seq<char>,
    status: u16,
    body: Option<Seq<char>>,
    reading: Option<bool>,
)
    requires
        classifies(site, username, status, body, reading),
    ensures
        reading == site.classification(status, text_bytes(body)),
{
    let (name, text) = choose|name: &str, text: Option<&str>|
        name@ == username && crate::sites::site::body_text(text) == body && call_ensures(
            KnownSite::parse_response,
            (site, name, status, text),
            reading,
        );
    assert(body_bytes(text) == text_bytes(body));
}

/// A known site builds the address from its URL pattern, every time, and
/// always says the same of its need for a browser.
pub proof fn lemma_known_site_plans_by_rule(
    site: &KnownSite,
    username: Seq<char>,
    url: Seq<char>,
    rendering: bool,
)
    ensures
        builds(site, username, url) ==> url == url_for(site.url_pattern_spec(), username),
        renders(site, rendering) ==> rendering == site.rendering(),
{
}

/// A known site always asks for the same request method.
pub proof fn lemma_known_site_asks_by_rule(site: &KnownSite, method: Seq<char>)
    requires
        asks_for(site, method),
    ensures
        method == (if site.reads_body() {
            "GET"@
        } else {
            "HEAD"@
        }),
{
}

/// Every known site answers steadily.
pub proof fn lemma_known_site_is_steady(site: &KnownSite)
    ensures
        is_steady(site),
{
    assert forall|username: Seq<char>, one: Seq<char>, other: Seq<char>|
        #![trigger builds(site, username, one), builds(site, username, other)]
        builds(site, username, one) && builds(site, username, other) implies one == other by {
        lemma_known_site_plans_by_rule(site, username, one, site.rendering());
        lemma_known_site_plans_by_rule(site, username, other, site.rendering());
    }
    assert forall|one: Seq<char>, other: Seq<char>|
        #![trigger asks_for(site, one), asks_for(site, other)]
        asks_for(site, one) && asks_for(site, other) implies one == other by {
        lemma_known_site_asks_by_rule(site, one);
        lemma_known_site_asks_by_rule(site, other);
    }
    assert forall|
        username: Seq<char>,
        status: u16,
        body: Option<Seq<char>>,
        one: Option<bool>,
        other: Option<bool>,
    |
        #![trigger classifies(site, username, status, body, one), classifies(site, username, status, body, other)]
        classifies(site, username, status, body, one) && classifies(
            site,
            username,
            status,
            body,
            other,
        ) implies one == other by {
        lemma_known_site_reads_by_rule(site, username, status, body, one);
        lemma_known_site_reads_by_rule(site, username, status, body, other);
    }
}

/// A response without a body is read as uncertain exactly when the status
/// code alone does not decide for the site; where it decides, the site reads
/// the response as the status alone says.
pub proof fn lemma_no_body_is_uncertain(site: KnownSite, status: u16)
    ensures
        site.classification(status, None) is None <==> !site.status_decides(status),
        site.status_decides(status) ==> site.classification(status, None) == default_classification(
            status,
        ),
{
}

/// A status code outside 2xx and other than 404 is read as uncertain by
/// every site, whatever the body.
pub proof fn lemma_unknown_status_is_uncertain(site: KnownSite, status: u16, body: Option<Seq<u8>>)
    requires
        status != 404,
        !(200 <= status <= 299),
    ensures
        site.classification(status, body) is None,
{
}

/// The names of the known sites differ from one another.
pub proof fn lemma_known_names_differ(a: KnownSite, b: KnownSite)
    requires
        a.name_spec() == b.name_spec(),
    ensures
        a == b,
{
    reveal_strlit("GitHub");
    reveal_strlit("Twitter");
    reveal_strlit("LinkedIn");
    reveal_strlit("Steam");
    reveal_strlit("Reddit");
    reveal_strlit("OnlyFans");
    reveal_strlit("Medium");
    assert("GitHub"@.len() == 6 && "GitHub"@[0] == 'G');
    assert("Twitter"@.len() == 7);
    assert("LinkedIn"@.len() == 8 && "LinkedIn"@[0] == 'L');
    assert("Steam"@.len() == 5);
    assert("Reddit"@.len() == 6 && "Reddit"@[0] == 'R');
    assert("OnlyFans"@.len() == 8 && "OnlyFans"@[0] == 'O');
    assert("Medium"@.len() == 6 && "Medium"@[0] == 'M');
}

} // verus!
