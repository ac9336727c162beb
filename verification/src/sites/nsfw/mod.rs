//! Checkers for adult content sites.

pub mod onlyfans;

pub use onlyfans::OnlyFansChecker;

use crate::sites::catalog::KnownSite;
use vstd::prelude::*;

verus! {

/// The adult content sites: OnlyFans.
pub fn all_sites() -> (r: Vec<Box<KnownSite>>)
    ensures
        r@.len() == 1,
        *r@[0] == KnownSite::OnlyFans(OnlyFansChecker),
{
    let mut sites: Vec<Box<KnownSite>> = Vec::new();
    sites.push(Box::new(KnownSite::OnlyFans(OnlyFansChecker::new())));
    sites
}

} // verus!
