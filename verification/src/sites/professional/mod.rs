//! Checkers for professional network sites.

pub mod linkedin;

pub use linkedin::LinkedInChecker;

use crate::sites::catalog::KnownSite;
use vstd::prelude::*;

verus! {

/// The professional network sites: LinkedIn.
pub fn all_sites() -> (r: Vec<Box<KnownSite>>)
    ensures
        r@.len() == 1,
        *r@[0] == KnownSite::LinkedIn(LinkedInChecker),
{
    let mut sites: Vec<Box<KnownSite>> = Vec::new();
    sites.push(Box::new(KnownSite::LinkedIn(LinkedInChecker::new())));
    sites
}

} // verus!
