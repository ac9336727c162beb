//! Search result types.

use vstd::prelude::*;

verus! {

/// What a search result holds, as plain values.
pub struct ResultView {
    /// Site name where the search was performed.
    pub site: Seq<char>,
    /// Username that was searched.
    pub username: Seq<char>,
    /// Whether the username exists on the site.
    pub exists: bool,
    /// Where the profile was found.
    pub url: Option<Seq<char>>,
    /// Additional metadata.
    pub metadata: Option<Seq<char>>,
}

/// Result of a username search on a site.
#[derive(Debug, PartialEq, Eq)]
pub struct SearchResult {
    /// Site name where the search was performed.
    pub site: String,
    /// Username that was searched.
    pub username: String,
    /// Whether the username exists on this site.
    pub exists: bool,
    /// URL where the profile was found (if it exists).
    pub url: Option<String>,
    /// Additional metadata.
    pub metadata: Option<String>,
}

/// The characters of an optional text.
pub open spec fn text_view(s: Option<String>) -> Option<Seq<char>> {
    match s {
        Some(t) => Some(t@),
        None => None,
    }
}

impl View for SearchResult {
    type V = ResultView;

    open spec fn view(&self) -> ResultView {
        ResultView {
            site: self.site@,
            username: self.username@,
            exists: self.exists,
            url: text_view(self.url),
            metadata: text_view(self.metadata),
        }
    }
}

/// The result for a username that a site has, at the given address.
pub open spec fn found_view(site: Seq<char>, username: Seq<char>, url: Seq<char>) -> ResultView {
    ResultView { site, username, exists: true, url: Some(url), metadata: None }
}

/// The result for a username that a site does not have.
pub open spec fn not_found_view(site: Seq<char>, username: Seq<char>) -> ResultView {
    ResultView { site, username, exists: false, url: None, metadata: None }
}

impl Clone for SearchResult {
    fn clone(&self) -> (r: SearchResult)
        ensures
            r@ == self@,
    {
        let url = match &self.url {
            Some(u) => Some(u.clone()),
            None => None,
        };
        let metadata = match &self.metadata {
            Some(m) => Some(m.clone()),
            None => None,
        };
        SearchResult {
            site: self.site.clone(),
            username: self.username.clone(),
            exists: self.exists,
            url,
            metadata,
        }
    }
}

impl SearchResult {
    /// A result with the given finding and no address.
    pub fn new(site: String, username: String, exists: bool) -> (r: SearchResult)
        ensures
            r@ == (ResultView { site: site@, username: username@, exists, url: None, metadata: None }),
    {
        SearchResult { site, username, exists, url: None, metadata: None }
    }

    /// A result saying that the username exists at `url`.
    pub fn found(site: String, username: String, url: String) -> (r: SearchResult)
        ensures
            r@ == found_view(site@, username@, url@),
    {
        SearchResult { site, username, exists: true, url: Some(url), metadata: None }
    }

    /// A result saying that the username was not found.
    pub fn not_found(site: String, username: String) -> (r: SearchResult)
        ensures
            r@ == not_found_view(site@, username@),
    {
        SearchResult { site, username, exists: false, url: None, metadata: None }
    }
}

} // verus!
