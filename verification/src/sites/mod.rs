//! Site descriptions and the registry that filters them.

pub mod catalog;
pub mod dev;
pub mod forum;
pub mod gaming;
pub mod nsfw;
pub mod other;
pub mod professional;
pub mod registry;
pub mod selection;
pub mod site;
pub mod social;

pub use catalog::KnownSite;
pub use registry::{SiteRegistry, SiteStatistics};
pub use site::Site;

use vstd::prelude::*;

verus! {

/// The sites that are probed by default, category by category.
pub open spec fn default_sites() -> Seq<KnownSite> {
    seq![
        KnownSite::GitHub(dev::GitHubChecker),
        KnownSite::Twitter(social::TwitterChecker),
        KnownSite::LinkedIn(professional::LinkedInChecker),
        KnownSite::Reddit(forum::RedditChecker),
        KnownSite::OnlyFans(nsfw::OnlyFansChecker),
        KnownSite::Medium(other::MediumChecker),
    ]
}

/// What the boxes of a list hold.
pub open spec fn unboxed<S>(sites: Seq<Box<S>>) -> Seq<S> {
    Seq::new(sites.len(), |i: int| *sites[i])
}

/// All sites that are probed by default: dev, social, professional, gaming,
/// forum, adult content, other, in this order.
pub fn all_sites() -> (r: Vec<Box<KnownSite>>)
    ensures
        unboxed(r@) == default_sites(),
{
    let mut sites: Vec<Box<KnownSite>> = Vec::new();
    let mut part = dev::all_sites();
    sites.append(&mut part);
    let mut part = social::all_sites();
    sites.append(&mut part);
    let mut part = professional::all_sites();
    sites.append(&mut part);
    let mut part = gaming::all_sites();
    sites.append(&mut part);
    let mut part = forum::all_sites();
    sites.append(&mut part);
    let mut part = nsfw::all_sites();
    sites.append(&mut part);
    let mut part = other::all_sites();
    sites.append(&mut part);
    proof {
        assert(unboxed(sites@) =~= default_sites());
    }
    sites
}

} // verus!
