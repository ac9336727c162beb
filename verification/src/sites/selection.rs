//! The rules by which a list of sites is narrowed down.
//!
//! A filter that names nothing restricts nothing. Site names are compared
//! without regard to case.

use crate::data::site_info::SiteType;
use crate::sites::site::Site;
use crate::utils::text::{lowercase, same_text, to_lowercase};
use vstd::prelude::*;

verus! {

/// A category passes a list of categories that is empty or holds it.
pub open spec fn type_allowed(t: SiteType, allowed: Seq<SiteType>) -> bool {
    allowed.len() == 0 || allowed.contains(t)
}

/// A name is listed when it equals one of the listed names, case aside.
pub open spec fn name_listed(name: Seq<char>, names: Seq<String>) -> bool {
    exists|k: int| 0 <= k < names.len() && lowercase(#[trigger] names[k]@) == lowercase(name)
}

/// A name passes a list of names that is empty or lists it.
pub open spec fn name_allowed(name: Seq<char>, names: Seq<String>) -> bool {
    names.len() == 0 || name_listed(name, names)
}

/// A site passes when both its category and its name pass.
pub open spec fn site_allowed<S: Site + ?Sized>(
    site: &S,
    types: Seq<SiteType>,
    names: Seq<String>,
) -> bool {
    type_allowed(site.site_type_spec(), types) && name_allowed(site.name_spec(), names)
}

/// A test that every element of a list passes keeps the whole list.
pub proof fn lemma_filter_keeps_all<A>(list: Seq<A>, keep: spec_fn(A) -> bool)
    requires
        forall|i: int| 0 <= i < list.len() ==> keep(#[trigger] list[i]),
    ensures
        list.filter(keep) == list,
    decreases list.len(),
{
    reveal(Seq::filter);
    if list.len() > 0 {
        let front = list.drop_last();
        assert forall|i: int| 0 <= i < front.len() implies keep(#[trigger] front[i]) by {
            assert(front[i] == list[i]);
        }
        lemma_filter_keeps_all(front, keep);
        assert(front.push(list.last()) =~= list);
    }
}

/// Whether a list of categories holds the category.
pub fn holds_type(allowed: &[SiteType], t: SiteType) -> (r: bool)
    ensures
        r == allowed@.contains(t),
{
    let mut i: usize = 0;
    while i < allowed.len()
        invariant
            i <= allowed@.len(),
            forall|k: int| 0 <= k < i ==> allowed@[k] != t,
        decreases allowed@.len() - i,
    {
        if allowed[i] == t {
            return true;
        }
        i += 1;
    }
    false
}

/// The listed names in lower case, one for one.
pub(crate) fn lowercase_keys(names: &[String]) -> (r: Vec<String>)
    ensures
        r@.len() == names@.len(),
        forall|k: int| 0 <= k < names@.len() ==> (#[trigger] r@[k])@ == lowercase(names@[k]@),
{
    let mut keys: Vec<String> = Vec::with_capacity(names.len());
    let mut i: usize = 0;
    while i < names.len()
        invariant
            i <= names@.len(),
            keys@.len() == i,
            forall|k: int| 0 <= k < i ==> (#[trigger] keys@[k])@ == lowercase(names@[k]@),
        decreases names@.len() - i,
    {
        keys.push(to_lowercase(names[i].as_str()));
        i += 1;
    }
    keys
}

/// One of the keys is the word, letter for letter.
pub open spec fn key_among(keys: Seq<String>, word: Seq<char>) -> bool {
    exists|k: int| 0 <= k < keys.len() && (#[trigger] keys[k])@ == word
}

/// Whether one of the keys is the word, letter for letter.
pub fn holds_key(keys: &[String], word: &str) -> (r: bool)
    ensures
        r == key_among(keys@, word@),
{
    let mut i: usize = 0;
    while i < keys.len()
        invariant
            i <= keys@.len(),
            forall|k: int| 0 <= k < i ==> (#[trigger] keys@[k])@ != word@,
        decreases keys@.len() - i,
    {
        if same_text(keys[i].as_str(), word) {
            return true;
        }
        i += 1;
    }
    false
}

/// Whether the name, case aside, is one of the names that `keys` holds in
/// lower case.
pub(crate) fn key_listed(keys: &Vec<String>, name: &str, Ghost(names): Ghost<Seq<String>>) -> (r: bool)
    requires
        keys@.len() == names.len(),
        forall|k: int| 0 <= k < names.len() ==> (#[trigger] keys@[k])@ == lowercase(names[k]@),
    ensures
        r == name_listed(name@, names),
{
    let key = to_lowercase(name);
    let r = holds_key(keys.as_slice(), key.as_str());
    proof {
        if r {
            let k = choose|k: int| 0 <= k < keys@.len() && (#[trigger] keys@[k])@ == key@;
            assert(lowercase(names[k]@) == lowercase(name@));
        }
        if name_listed(name@, names) {
            let k = choose|k: int|
                0 <= k < names.len() && lowercase(#[trigger] names[k]@) == lowercase(name@);
            assert(keys@[k]@ == key@);
        }
    }
    r
}

} // verus!
