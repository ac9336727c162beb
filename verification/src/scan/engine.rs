//! The engine: the default registry and a search over it.

use crate::data::site_info::SiteType;
use crate::request::trait_impl::Request;
use crate::scan::model::is_scan_of;
use crate::scan::probe::views;
use crate::scan::protocol::{names_come_from, names_differ, sites_differ};
use crate::scan::result::SearchResult;
use crate::scan::scanner::scan_sites;
use crate::sites::catalog::{lemma_known_names_differ, KnownSite};
use crate::sites::registry::{refs, SiteRegistry};
use crate::sites::selection::site_allowed;
use crate::sites::site::Site;
use crate::sites::{default_sites, unboxed};
use crate::utils::error::SleuthError;
use vstd::prelude::*;

verus! {

/// The sites of a list that pass a test, in the same order, have different
/// names if the sites of the list have.
pub proof fn lemma_filter_keeps_names_apart<'a, S: Site + ?Sized>(
    sites: Seq<&'a S>,
    keep: spec_fn(&'a S) -> bool,
)
    requires
        names_differ(sites),
    ensures
        names_differ(sites.filter(keep)),
    decreases sites.len(),
{
    reveal(Seq::filter);
    if sites.len() > 0 {
        let front = sites.drop_last();
        lemma_filter_keeps_names_apart(front, keep);
        let kept = front.filter(keep);
        if keep(sites.last()) {
            let all = kept.push(sites.last());
            assert forall|i: int, j: int| 0 <= i < j < all.len() implies (#[trigger] all[i]).name_spec()
                != (#[trigger] all[j]).name_spec() by {
                if j < kept.len() {
                    assert(kept[i].name_spec() != kept[j].name_spec());
                } else {
                    assert(kept.contains(kept[i]));
                    front.lemma_filter_contains_rev(keep, kept[i]);
                    let m = choose|m: int| 0 <= m < front.len() && front[m] == kept[i];
                    assert(sites[m].name_spec() != sites[sites.len() - 1].name_spec());
                }
            }
        }
    }
}

/// The sites that are probed by default have different names.
pub proof fn lemma_default_names_differ<'a>(sites: Seq<&'a KnownSite>)
    requires
        sites.len() == default_sites().len(),
        forall|i: int| 0 <= i < sites.len() ==> *sites[i] == default_sites()[i],
    ensures
        names_differ(sites),
{
    assert forall|i: int, j: int| 0 <= i < j < sites.len() implies (#[trigger] sites[i]).name_spec()
        != (#[trigger] sites[j]).name_spec() by {
        if sites[i].name_spec() == sites[j].name_spec() {
            lemma_known_names_differ(*sites[i], *sites[j]);
            assert(default_sites()[i] == default_sites()[j]);
        }
    }
}

/// The search engine: a registry of the sites that are probed by default.
pub struct Engine {
    registry: SiteRegistry<KnownSite>,
}

impl Engine {
    /// The registry of the engine.
    pub closed spec fn registry(&self) -> SiteRegistry<KnownSite> {
        self.registry
    }

    /// The registry of an engine holds the sites that are probed by default.
    #[verifier::type_invariant]
    spec fn wf(&self) -> bool {
        unboxed(self.registry.sites()) == default_sites()
    }

    /// An engine over the sites that are probed by default.
    pub fn new() -> (r: Engine)
        ensures
            unboxed(r.registry().sites()) == default_sites(),
    {
        Engine { registry: SiteRegistry::new() }
    }

    /// The sites of the engine that pass both filters, in order.
    pub fn select(&self, site_types: &[SiteType], site_names: &[String]) -> (r: Vec<&KnownSite>)
        ensures
            r@ == refs(self.registry().sites()).filter(
                |s: &KnownSite| site_allowed(s, site_types@, site_names@),
            ),
    {
        self.registry.filter(site_types, site_names)
    }

    /// Scans a username over the sites of the engine that pass both filters,
    /// as `scan_sites` does. Where no site passes, no request is made. No
    /// two results are for the same site.
    pub fn search<P: Request + ?Sized, V: Request + ?Sized>(
        &self,
        username: &str,
        site_types: &[SiteType],
        site_names: &[String],
        transport: &P,
        renderer: &V,
        verify: bool,
    ) -> (r: Result<Vec<SearchResult>, SleuthError>)
        ensures
            r matches Ok(results) && {
                &&& is_scan_of(
                    refs(self.registry().sites()).filter(
                        |s: &KnownSite| site_allowed(s, site_types@, site_names@),
                    ),
                    username@,
                    transport,
                    renderer,
                    verify,
                    views(results@),
                )
                &&& names_come_from(
                    views(results@),
                    refs(self.registry().sites()).filter(
                        |s: &KnownSite| site_allowed(s, site_types@, site_names@),
                    ),
                )
                &&& sites_differ(views(results@))
                &&& forall|k: int|
                    0 <= k < results@.len() ==> (#[trigger] views(results@)[k]).username
                        == username@
            },
    {
        let sites = self.select(site_types, site_names);
        proof {
            use_type_invariant(self);
            let all = refs(self.registry().sites());
            assert forall|i: int| 0 <= i < all.len() implies *all[i] == default_sites()[i] by {
                assert(unboxed(self.registry.sites())[i] == default_sites()[i]);
            }
            lemma_default_names_differ(all);
            lemma_filter_keeps_names_apart(
                all,
                |s: &KnownSite| site_allowed(s, site_types@, site_names@),
            );
        }
        Ok(scan_sites(username, sites, transport, renderer, verify))
    }
}

impl Default for Engine {
    fn default() -> (r: Engine)
        ensures
            unboxed(r.registry().sites()) == default_sites(),
    {
        Engine::new()
    }
}

} // verus!
