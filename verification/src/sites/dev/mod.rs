//! Checkers for development and tech sites.

pub mod github;

pub use github::GitHubChecker;

use crate::sites::catalog::KnownSite;
use vstd::prelude::*;

verus! {

/// The development and tech sites: GitHub.
pub fn all_sites() -> (r: Vec<Box<KnownSite>>)
    ensures
        r@.len() == 1,
        *r@[0] == KnownSite::GitHub(GitHubChecker),
{
    let mut sites: Vec<Box<KnownSite>> = Vec::new();
    sites.push(Box::new(KnownSite::GitHub(GitHubChecker::new())));
    sites
}

} // verus!
