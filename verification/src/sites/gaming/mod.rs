//! Checkers for gaming sites.

pub mod steam;

pub use steam::SteamChecker;

use crate::sites::catalog::KnownSite;
use vstd::prelude::*;

verus! {

/// The gaming sites that are probed by default: none. The Steam checker is
/// there for callers that build their own registry.
pub fn all_sites() -> (r: Vec<Box<KnownSite>>)
    ensures
        r@.len() == 0,
{
    Vec::new()
}

} // verus!
