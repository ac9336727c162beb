//! The arguments of a search.

use crate::data::site_info::{site_type_named, SiteType};
use crate::utils::text::lowercase;
use vstd::prelude::*;

verus! {

/// The arguments of a search, as the command line gives them.
#[derive(Debug)]
pub struct Args {
    /// Username to search for.
    pub username: String,
    /// Categories to restrict the search to, as words.
    pub site_types: Vec<String>,
    /// Site names to restrict the search to.
    pub sites: Vec<String>,
    /// Output format: text, json or csv.
    pub output_format: String,
    /// Timeout in seconds for each request.
    pub timeout: u64,
    /// Number of retries for failed requests.
    pub retries: u32,
    /// Whether found results are checked again with the browser.
    pub verify: bool,
}

/// The categories that the words name, in the order of the words. A word
/// that names no category is passed over.
pub open spec fn named_types(words: Seq<String>) -> Seq<SiteType>
    decreases words.len(),
{
    if words.len() == 0 {
        Seq::empty()
    } else {
        let rest = named_types(words.drop_last());
        match site_type_named(lowercase(words.last()@)) {
            Some(t) => rest.push(t),
            None => rest,
        }
    }
}

impl Args {
    /// The categories that the category arguments name. Arguments that name
    /// no category are passed over.
    pub fn parsed_site_types(&self) -> (r: Vec<SiteType>)
        ensures
            r@ == named_types(self.site_types@),
    {
        let mut types: Vec<SiteType> = Vec::new();
        let mut i: usize = 0;
        while i < self.site_types.len()
            invariant
                i <= self.site_types@.len(),
                types@ == named_types(self.site_types@.take(i as int)),
            decreases self.site_types@.len() - i,
        {
            proof {
                assert(self.site_types@.take(i + 1).drop_last() =~= self.site_types@.take(
                    i as int,
                ));
            }
            match SiteType::parse(self.site_types[i].as_str()) {
                Some(t) => {
                    types.push(t);
                },
                None => {},
            }
            i += 1;
        }
        proof {
            assert(self.site_types@.take(i as int) =~= self.site_types@);
        }
        types
    }

    /// Whether the search is restricted by category.
    pub fn has_type_filter(&self) -> (r: bool)
        ensures
            r == (self.site_types@.len() > 0),
    {
        self.site_types.len() > 0
    }

    /// Whether the search is restricted by site name.
    pub fn has_site_filter(&self) -> (r: bool)
        ensures
            r == (self.sites@.len() > 0),
    {
        self.sites.len() > 0
    }
}

} // verus!
