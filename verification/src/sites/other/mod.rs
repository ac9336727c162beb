//! Checkers for uncategorized sites.

pub mod medium;

pub use medium::MediumChecker;

use crate::sites::catalog::KnownSite;
use vstd::prelude::*;

verus! {

/// The uncategorized sites: Medium.
pub fn all_sites() -> (r: Vec<Box<KnownSite>>)
    ensures
        r@.len() == 1,
        *r@[0] == KnownSite::Medium(MediumChecker),
{
    let mut sites: Vec<Box<KnownSite>> = Vec::new();
    sites.push(Box::new(KnownSite::Medium(MediumChecker::new())));
    sites
}

} // verus!
