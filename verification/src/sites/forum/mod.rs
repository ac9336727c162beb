//! Checkers for forum and discussion sites.

pub mod reddit;

pub use reddit::RedditChecker;

use crate::sites::catalog::KnownSite;
use vstd::prelude::*;

verus! {

/// The forum and discussion sites: Reddit.
pub fn all_sites() -> (r: Vec<Box<KnownSite>>)
    ensures
        r@.len() == 1,
        *r@[0] == KnownSite::Reddit(RedditChecker),
{
    let mut sites: Vec<Box<KnownSite>> = Vec::new();
    sites.push(Box::new(KnownSite::Reddit(RedditChecker::new())));
    sites
}

} // verus!
