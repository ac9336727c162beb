//! Site categories and site metadata.

use crate::utils::text::{joined, lowercase, same_text, to_lowercase};
use std::str::FromStr;
use vstd::prelude::*;

verus! {

/// Categories for sites.
#[derive(Debug, Clone, Copy, PartialEq, Eq, Hash, Structural)]
pub enum SiteType {
    /// Development and tech platforms.
    Dev,
    /// Social media platforms.
    Social,
    /// Adult content platforms.
    Nsfw,
    /// Professional networks.
    Professional,
    /// Gaming platforms.
    Gaming,
    /// Forums and communities.
    Forum,
    /// Everything else.
    Other,
}

/// The category that a lowercased word names, if it names one.
pub open spec fn site_type_named(word: Seq<char>) -> Option<SiteType> {
    if word == "dev"@ || word == "development"@ {
        Some(SiteType::Dev)
    } else if word == "social"@ {
        Some(SiteType::Social)
    } else if word == "nsfw"@ {
        Some(SiteType::Nsfw)
    } else if word == "professional"@ || word == "pro"@ {
        Some(SiteType::Professional)
    } else if word == "gaming"@ || word == "game"@ {
        Some(SiteType::Gaming)
    } else if word == "forum"@ || word == "forums"@ {
        Some(SiteType::Forum)
    } else if word == "other"@ {
        Some(SiteType::Other)
    } else {
        None
    }
}

/// The categories in their fixed order.
pub open spec fn all_site_types() -> Seq<SiteType> {
    seq![
        SiteType::Dev,
        SiteType::Social,
        SiteType::Nsfw,
        SiteType::Professional,
        SiteType::Gaming,
        SiteType::Forum,
        SiteType::Other,
    ]
}

/// The category that a word in lower case names, if it names one.
pub fn site_type_of(word: &str) -> (r: Option<SiteType>)
    ensures
        r == site_type_named(word@),
{
    if same_text(word, "dev") || same_text(word, "development") {
        Some(SiteType::Dev)
    } else if same_text(word, "social") {
        Some(SiteType::Social)
    } else if same_text(word, "nsfw") {
        Some(SiteType::Nsfw)
    } else if same_text(word, "professional") || same_text(word, "pro") {
        Some(SiteType::Professional)
    } else if same_text(word, "gaming") || same_text(word, "game") {
        Some(SiteType::Gaming)
    } else if same_text(word, "forum") || same_text(word, "forums") {
        Some(SiteType::Forum)
    } else if same_text(word, "other") {
        Some(SiteType::Other)
    } else {
        None
    }
}

impl SiteType {
    /// The display name of the category.
    pub open spec fn label(self) -> Seq<char> {
        match self {
            SiteType::Dev => "dev"@,
            SiteType::Social => "social"@,
            SiteType::Nsfw => "nsfw"@,
            SiteType::Professional => "professional"@,
            SiteType::Gaming => "gaming"@,
            SiteType::Forum => "forum"@,
            SiteType::Other => "other"@,
        }
    }

    /// The position of the category in the fixed order.
    pub open spec fn ordinal(self) -> int {
        match self {
            SiteType::Dev => 0,
            SiteType::Social => 1,
            SiteType::Nsfw => 2,
            SiteType::Professional => 3,
            SiteType::Gaming => 4,
            SiteType::Forum => 5,
            SiteType::Other => 6,
        }
    }

    /// All categories, in their fixed order.
    pub fn all() -> (r: Vec<SiteType>)
        ensures
            r@ == all_site_types(),
            forall|t: SiteType| r@[t.ordinal()] == t,
    {
        let r = vec![
            SiteType::Dev,
            SiteType::Social,
            SiteType::Nsfw,
            SiteType::Professional,
            SiteType::Gaming,
            SiteType::Forum,
            SiteType::Other,
        ];
        proof {
            assert(r@ =~= all_site_types());
        }
        r
    }

    /// Reads a category from a word, ignoring case. Some categories have a
    /// second spelling.
    pub fn parse(s: &str) -> (r: Option<SiteType>)
        ensures
            r == site_type_named(lowercase(s@)),
    {
        let lower = to_lowercase(s);
        site_type_of(lower.as_str())
    }

    /// The display name of the category.
    pub fn as_str(&self) -> (r: &'static str)
        ensures
            r@ == self.label(),
    {
        match self {
            SiteType::Dev => "dev",
            SiteType::Social => "social",
            SiteType::Nsfw => "nsfw",
            SiteType::Professional => "professional",
            SiteType::Gaming => "gaming",
            SiteType::Forum => "forum",
            SiteType::Other => "other",
        }
    }
}

impl FromStr for SiteType {
    type Err = String;

    /// Like `parse`, with a message that quotes the word when it names no
    /// category.
    fn from_str(s: &str) -> (r: Result<SiteType, String>)
        ensures
            r is Ok <==> site_type_named(lowercase(s@)) is Some,
            r matches Ok(t) ==> Some(t) == site_type_named(lowercase(s@)),
            r matches Err(e) ==> e@ == "Unknown site type: "@ + s@,
    {
        match SiteType::parse(s) {
            Some(t) => Ok(t),
            None => Err(joined("Unknown site type: ", s)),
        }
    }
}

/// Metadata about a site.
#[derive(Debug, Clone)]
pub struct SiteInfo {
    /// Site name.
    pub name: String,
    /// Site category.
    pub site_type: SiteType,
    /// URL pattern with `{}` where the username goes.
    pub url_pattern: String,
    /// Whether the site is enabled by default.
    pub enabled: bool,
}

impl SiteInfo {
    /// Metadata of a site that is enabled.
    pub fn new(name: String, site_type: SiteType, url_pattern: String) -> (r: SiteInfo)
        ensures
            r.name == name,
            r.site_type == site_type,
            r.url_pattern == url_pattern,
            r.enabled,
    {
        SiteInfo { name, site_type, url_pattern, enabled: true }
    }

    /// Metadata of a site with the given enabled flag.
    pub fn with_enabled(name: String, site_type: SiteType, url_pattern: String, enabled: bool) -> (r:
        SiteInfo)
        ensures
            r.name == name,
            r.site_type == site_type,
            r.url_pattern == url_pattern,
            r.enabled == enabled,
    {
        SiteInfo { name, site_type, url_pattern, enabled }
    }
}

} // verus!
