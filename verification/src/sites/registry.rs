//! Site registry: an ordered list of sites with its filters.

use crate::data::site_info::SiteType;
use crate::sites::catalog::KnownSite;
use crate::sites::selection::{
    lemma_filter_keeps_all,
    holds_type,
    key_listed,
    lowercase_keys,
    name_allowed,
    site_allowed,
    type_allowed,
};
use crate::sites::site::Site;
use crate::sites::{default_sites, unboxed};
use crate::utils::text::{lowercase, same_text, to_lowercase};
use vstd::prelude::*;

verus! {

/// The sites of a list, each as a reference, in the same order.
pub open spec fn refs<'a, S: ?Sized>(sites: Seq<Box<S>>) -> Seq<&'a S> {
    Seq::new(sites.len(), |i: int| &*sites[i])
}

/// The test that a site has the category.
pub open spec fn of_type<'a, S: Site + ?Sized>(t: SiteType) -> spec_fn(&'a S) -> bool {
    |s: &S| s.site_type_spec() == t
}

/// How many sites of a list have the category.
pub open spec fn count_of_type<S: Site + ?Sized>(sites: Seq<Box<S>>, t: SiteType) -> nat {
    refs(sites).filter(of_type(t)).len()
}

/// How many sites there are in each category.
pub struct TypeCounts {
    counts: Vec<usize>,
}

impl TypeCounts {
    /// There is one count for each category, in the fixed order.
    #[verifier::type_invariant]
    spec fn wf(&self) -> bool {
        self.counts@.len() == 7
    }

    /// The count of a category.
    pub closed spec fn count(&self, t: SiteType) -> usize {
        self.counts@[t.ordinal()]
    }

    /// The count of a category. Every category has one.
    pub fn get(&self, t: &SiteType) -> (r: Option<&usize>)
        ensures
            r == Some(&self.count(*t)),
    {
        proof {
            use_type_invariant(self);
        }
        let i: usize = match t {
            SiteType::Dev => 0,
            SiteType::Social => 1,
            SiteType::Nsfw => 2,
            SiteType::Professional => 3,
            SiteType::Gaming => 4,
            SiteType::Forum => 5,
            SiteType::Other => 6,
        };
        Some(&self.counts[i])
    }

    /// The number of categories that are counted.
    pub fn len(&self) -> (r: usize)
        ensures
            r == 7,
    {
        proof {
            use_type_invariant(self);
        }
        self.counts.len()
    }
}

/// Statistics about registered sites.
pub struct SiteStatistics {
    /// Total number of sites.
    pub total: usize,
    /// Count of sites by category.
    pub by_type: TypeCounts,
}

/// Registry of the available sites, in the order in which they were given.
pub struct SiteRegistry<S: Site + ?Sized> {
    all_sites: Vec<Box<S>>,
}

impl SiteRegistry<KnownSite> {
    /// A registry of the sites that are probed by default.
    pub fn new() -> (r: SiteRegistry<KnownSite>)
        ensures
            unboxed(r.sites()) == default_sites(),
    {
        SiteRegistry::from_sites(crate::sites::all_sites())
    }
}

impl Default for SiteRegistry<KnownSite> {
    fn default() -> (r: SiteRegistry<KnownSite>)
        ensures
            unboxed(r.sites()) == default_sites(),
    {
        SiteRegistry::new()
    }
}

impl<S: Site + ?Sized> SiteRegistry<S> {
    /// The sites of the registry, in order.
    pub closed spec fn sites(&self) -> Seq<Box<S>> {
        self.all_sites@
    }

    /// A registry of the given sites, in the given order.
    pub fn from_sites(sites: Vec<Box<S>>) -> (r: SiteRegistry<S>)
        ensures
            r.sites() == sites@,
    {
        SiteRegistry { all_sites: sites }
    }

    /// All sites, in order.
    pub fn all(&self) -> (r: &[Box<S>])
        ensures
            r@ == self.sites(),
    {
        self.all_sites.as_slice()
    }

    /// The sites of one category, in order.
    pub fn by_type(&self, site_type: SiteType) -> (r: Vec<&S>)
        ensures
            r@ == refs(self.sites()).filter(of_type(site_type)),
    {
        let ghost all = refs(self.all_sites@);
        let ghost keep = of_type::<S>(site_type);
        let mut out: Vec<&S> = Vec::new();
        let mut i: usize = 0;
        proof {
            reveal(Seq::filter);
            assert(all.take(0).filter(keep) =~= Seq::<&S>::empty());
        }
        while i < self.all_sites.len()
            invariant
                i <= self.all_sites@.len(),
                all == refs(self.all_sites@),
                keep == of_type::<S>(site_type),
                out@ == all.take(i as int).filter(keep),
            decreases self.all_sites@.len() - i,
        {
            let site: &S = &*self.all_sites[i];
            proof {
                assert(all.take(i + 1) =~= all.take(i as int).push(site));
                all.take(i as int).lemma_filter_push(site, keep);
            }
            if site.site_type() == site_type {
                out.push(site);
            }
            i += 1;
        }
        proof {
            assert(all.take(i as int) =~= all);
        }
        out
    }

    /// The sites whose category is among `types`, in order; all sites if
    /// `types` is empty.
    pub fn by_types(&self, types: &[SiteType]) -> (r: Vec<&S>)
        ensures
            r@ == refs(self.sites()).filter(|s: &S| type_allowed(s.site_type_spec(), types@)),
    {
        let names: Vec<String> = Vec::new();
        let r = self.filter(types, names.as_slice());
        proof {
            let both = |s: &S| site_allowed(s, types@, names@);
            let only = |s: &S| type_allowed(s.site_type_spec(), types@);
            assert(both =~= only);
        }
        r
    }

    /// The first site with the given name, case aside.
    pub fn by_name(&self, name: &str) -> (r: Option<&S>)
        ensures
            match r {
                Some(site) => exists|i: int|
                    {
                        &&& 0 <= i < self.sites().len()
                        &&& site == &*self.sites()[i]
                        &&& lowercase(site.name_spec()) == lowercase(name@)
                        &&& forall|j: int|
                            0 <= j < i ==> lowercase((#[trigger] self.sites()[j]).name_spec())
                                != lowercase(name@)
                    },
                None => forall|j: int|
                    0 <= j < self.sites().len() ==> lowercase(
                        (#[trigger] self.sites()[j]).name_spec(),
                    ) != lowercase(name@),
            },
    {
        let key = to_lowercase(name);
        let mut i: usize = 0;
        while i < self.all_sites.len()
            invariant
                i <= self.all_sites@.len(),
                key@ == lowercase(name@),
                forall|j: int|
                    0 <= j < i ==> lowercase((#[trigger] self.all_sites@[j]).name_spec())
                        != lowercase(name@),
            decreases self.all_sites@.len() - i,
        {
            let site: &S = &*self.all_sites[i];
            let own = to_lowercase(site.name());
            if same_text(own.as_str(), key.as_str()) {
                assert(site == &*self.sites()[i as int]);
                return Some(site);
            }
            i += 1;
        }
        None
    }

    /// The sites whose name is among `names`, case aside, in order; all
    /// sites if `names` is empty.
    pub fn by_names(&self, names: &[String]) -> (r: Vec<&S>)
        ensures
            r@ == refs(self.sites()).filter(|s: &S| name_allowed(s.name_spec(), names@)),
    {
        let types: Vec<SiteType> = Vec::new();
        let r = self.filter(types.as_slice(), names);
        proof {
            let both = |s: &S| site_allowed(s, types@, names@);
            let only = |s: &S| name_allowed(s.name_spec(), names@);
            assert(both =~= only);
        }
        r
    }

    /// The sites that pass both filters, in order. An empty filter lets
    /// every site pass.
    pub fn filter(&self, types: &[SiteType], names: &[String]) -> (r: Vec<&S>)
        ensures
            r@ == refs(self.sites()).filter(|s: &S| site_allowed(s, types@, names@)),
            types@.len() == 0 && names@.len() == 0 ==> r@ == refs(self.sites()),
    {
        proof {
            if types@.len() == 0 && names@.len() == 0 {
                lemma_filter_keeps_all(
                    refs(self.all_sites@),
                    |s: &S| site_allowed(s, types@, names@),
                );
            }
        }
        let ghost all = refs(self.all_sites@);
        let ghost keep = |s: &S| site_allowed(s, types@, names@);
        let keys = lowercase_keys(names);
        let mut out: Vec<&S> = Vec::new();
        let mut i: usize = 0;
        proof {
            reveal(Seq::filter);
            assert(all.take(0).filter(keep) =~= Seq::<&S>::empty());
        }
        while i < self.all_sites.len()
            invariant
                i <= self.all_sites@.len(),
                all == refs(self.all_sites@),
                keep == (|s: &S| site_allowed(s, types@, names@)),
                keys@.len() == names@.len(),
                forall|k: int|
                    0 <= k < names@.len() ==> (#[trigger] keys@[k])@ == lowercase(names@[k]@),
                out@ == all.take(i as int).filter(keep),
            decreases self.all_sites@.len() - i,
        {
            let site: &S = &*self.all_sites[i];
            proof {
                assert(all.take(i + 1) =~= all.take(i as int).push(site));
                all.take(i as int).lemma_filter_push(site, keep);
            }
            let type_ok = types.len() == 0 || holds_type(types, site.site_type());
            if type_ok {
                let name_ok = names.len() == 0 || key_listed(&keys, site.name(), Ghost(names@));
                if name_ok {
                    out.push(site);
                }
            }
            i += 1;
        }
        proof {
            assert(all.take(i as int) =~= all);
        }
        out
    }

    /// Whether no two sites of the registry have the same name, case aside.
    pub open spec fn has_unique_names(&self) -> bool {
        forall|i: int, j: int|
            0 <= i < j < self.sites().len() ==> lowercase(
                (#[trigger] self.sites()[i]).name_spec(),
            ) != lowercase((#[trigger] self.sites()[j]).name_spec())
    }

    /// Whether no two sites of the registry have the same name, case aside.
    /// A registry is meant to be built from such sites; the filters by name
    /// find the first of several.
    pub fn names_are_unique(&self) -> (r: bool)
        ensures
            r == self.has_unique_names(),
    {
        let mut keys: Vec<String> = Vec::with_capacity(self.all_sites.len());
        let mut j: usize = 0;
        while j < self.all_sites.len()
            invariant
                j <= self.all_sites@.len(),
                keys@.len() == j,
                forall|k: int|
                    0 <= k < j ==> (#[trigger] keys@[k])@ == lowercase(
                        self.all_sites@[k].name_spec(),
                    ),
                forall|a: int, b: int|
                    0 <= a < b < j ==> lowercase((#[trigger] self.all_sites@[a]).name_spec())
                        != lowercase((#[trigger] self.all_sites@[b]).name_spec()),
            decreases self.all_sites@.len() - j,
        {
            let key = to_lowercase(self.all_sites[j].name());
            let mut i: usize = 0;
            while i < j
                invariant
                    i <= j < self.all_sites@.len(),
                    keys@.len() == j,
                    key@ == lowercase(self.all_sites@[j as int].name_spec()),
                    forall|k: int|
                        0 <= k < j ==> (#[trigger] keys@[k])@ == lowercase(
                            self.all_sites@[k].name_spec(),
                        ),
                    forall|a: int|
                        0 <= a < i ==> lowercase((#[trigger] self.all_sites@[a]).name_spec())
                            != lowercase(self.all_sites@[j as int].name_spec()),
                decreases j - i,
            {
                if same_text(keys[i].as_str(), key.as_str()) {
                    assert(lowercase(self.sites()[i as int].name_spec()) == lowercase(
                        self.sites()[j as int].name_spec(),
                    ));
                    return false;
                }
                i += 1;
            }
            keys.push(key);
            j += 1;
        }
        true
    }

    /// The number of sites.
    pub fn count(&self) -> (r: usize)
        ensures
            r == self.sites().len(),
    {
        self.all_sites.len()
    }

    /// The number of sites of one category.
    pub fn count_by_type(&self, site_type: SiteType) -> (r: usize)
        ensures
            r == count_of_type(self.sites(), site_type),
    {
        self.by_type(site_type).len()
    }

    /// The number of sites, in all and in each category.
    pub fn statistics(&self) -> (r: SiteStatistics)
        ensures
            r.total == self.sites().len(),
            forall|t: SiteType| #[trigger] r.by_type.count(t) == count_of_type(self.sites(), t),
    {
        let types = SiteType::all();
        let mut counts: Vec<usize> = Vec::with_capacity(7);
        let mut i: usize = 0;
        while i < types.len()
            invariant
                i <= 7,
                types@ == crate::data::site_info::all_site_types(),
                forall|t: SiteType| types@[t.ordinal()] == t,
                counts@.len() == i,
                forall|k: int|
                    0 <= k < i ==> #[trigger] counts@[k] == count_of_type(self.sites(), types@[k]),
            decreases 7 - i,
        {
            counts.push(self.count_by_type(types[i]));
            i += 1;
        }
        let by_type = TypeCounts { counts };
        proof {
            assert forall|t: SiteType| #[trigger]
                by_type.count(t) == count_of_type(self.sites(), t) by {
                assert(types@[t.ordinal()] == t);
            }
        }
        SiteStatistics { total: self.count(), by_type }
    }
}

} // verus!
