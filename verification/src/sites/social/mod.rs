//! Checkers for social media sites.

pub mod twitter;

pub use twitter::TwitterChecker;

use crate::sites::catalog::KnownSite;
use vstd::prelude::*;

verus! {

/// The social media sites: Twitter.
pub fn all_sites() -> (r: Vec<Box<KnownSite>>)
    ensures
        r@.len() == 1,
        *r@[0] == KnownSite::Twitter(TwitterChecker),
{
    let mut sites: Vec<Box<KnownSite>> = Vec::new();
    sites.push(Box::new(KnownSite::Twitter(TwitterChecker::new())));
    sites
}

} // verus!
