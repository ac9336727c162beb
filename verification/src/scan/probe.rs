//! The rules of one probe: how a classified response becomes a result, which
//! results the second pass checks again, and how a checked result replaces
//! the first one.

use crate::request::trait_impl::RequestResponse;
use crate::scan::result::{found_view, not_found_view, ResultView, SearchResult};
use crate::sites::site::{classifies, is_steady, Site};
use crate::utils::text::same_text;
use vstd::prelude::*;

verus! {

/// What a list of results holds, as plain values.
pub open spec fn views(results: Seq<SearchResult>) -> Seq<ResultView> {
    results.map_values(|r: SearchResult| r@)
}

/// Whether the first pass takes a username as existing. A reading of the
/// site decides. Without one, a site that needs a browser is taken as found
/// on any 2xx status, until the second pass says otherwise; every other
/// unread response counts as not found.
pub open spec fn first_pass_exists(reading: Option<bool>, rendering: bool, status: u16) -> bool {
    match reading {
        Some(exists) => exists,
        None => rendering && 200 <= status <= 299,
    }
}

/// Whether the second pass takes a username as existing: only on a reading
/// that says so.
pub open spec fn second_pass_exists(reading: Option<bool>) -> bool {
    reading == Some(true)
}

/// The result for a finding: found at the address, or not found.
pub open spec fn finding_view(
    site: Seq<char>,
    username: Seq<char>,
    url: Seq<char>,
    exists: bool,
) -> ResultView {
    if exists {
        found_view(site, username, url)
    } else {
        not_found_view(site, username)
    }
}

/// `result` is a result of the first pass for the site and the response.
pub open spec fn is_first_pass_result<S: Site + ?Sized>(
    site: &S,
    username: Seq<char>,
    url: Seq<char>,
    rendering: bool,
    status: u16,
    body: Option<Seq<char>>,
    result: ResultView,
) -> bool {
    exists|reading: Option<bool>| #[trigger]
        classifies(site, username, status, body, reading) && result == finding_view(
            site.name_spec(),
            username,
            url,
            first_pass_exists(reading, rendering, status),
        )
}

/// `result` is a result of the second pass for the site and the response.
pub open spec fn is_second_pass_result<S: Site + ?Sized>(
    site: &S,
    username: Seq<char>,
    url: Seq<char>,
    status: u16,
    body: Option<Seq<char>>,
    result: ResultView,
) -> bool {
    exists|reading: Option<bool>| #[trigger]
        classifies(site, username, status, body, reading) && result == finding_view(
            site.name_spec(),
            username,
            url,
            second_pass_exists(reading),
        )
}

/// Replaying the first pass gives the same result: two results of a steady
/// site for the same username, address, flag and response agree in every
/// field.
pub proof fn lemma_first_pass_repeats<S: Site + ?Sized>(
    site: &S,
    username: Seq<char>,
    url: Seq<char>,
    rendering: bool,
    status: u16,
    body: Option<Seq<char>>,
    one: ResultView,
    other: ResultView,
)
    requires
        is_steady(site),
        is_first_pass_result(site, username, url, rendering, status, body, one),
        is_first_pass_result(site, username, url, rendering, status, body, other),
    ensures
        one == other,
{
    let a = choose|reading: Option<bool>| #[trigger]
        classifies(site, username, status, body, reading) && one == finding_view(
            site.name_spec(),
            username,
            url,
            first_pass_exists(reading, rendering, status),
        );
    let b = choose|reading: Option<bool>| #[trigger]
        classifies(site, username, status, body, reading) && other == finding_view(
            site.name_spec(),
            username,
            url,
            first_pass_exists(reading, rendering, status),
        );
    assert(a == b);
}

/// Replaying the second pass gives the same result.
pub proof fn lemma_second_pass_repeats<S: Site + ?Sized>(
    site: &S,
    username: Seq<char>,
    url: Seq<char>,
    status: u16,
    body: Option<Seq<char>>,
    one: ResultView,
    other: ResultView,
)
    requires
        is_steady(site),
        is_second_pass_result(site, username, url, status, body, one),
        is_second_pass_result(site, username, url, status, body, other),
    ensures
        one == other,
{
    let a = choose|reading: Option<bool>| #[trigger]
        classifies(site, username, status, body, reading) && one == finding_view(
            site.name_spec(),
            username,
            url,
            second_pass_exists(reading),
        );
    let b = choose|reading: Option<bool>| #[trigger]
        classifies(site, username, status, body, reading) && other == finding_view(
            site.name_spec(),
            username,
            url,
            second_pass_exists(reading),
        );
    assert(a == b);
}

/// A result of the list says that the username exists on the named site.
pub open spec fn found_on(results: Seq<ResultView>, site: Seq<char>) -> bool {
    exists|k: int| 0 <= k < results.len() && (#[trigger] results[k]).site == site && results[k].exists
}

/// The second pass checks a site again when the site needs a browser and the
/// first pass found the username there.
pub open spec fn needs_verification(results: Seq<ResultView>, site: Seq<char>, rendering: bool) -> bool {
    rendering && found_on(results, site)
}

/// `at` is the place of the first result for the named site.
pub open spec fn is_first_for(results: Seq<ResultView>, site: Seq<char>, at: int) -> bool {
    &&& 0 <= at < results.len()
    &&& results[at].site == site
    &&& forall|j: int| 0 <= j < at ==> (#[trigger] results[j]).site != site
}

/// The list with the first result for the site of `checked` replaced by
/// `checked`. A list without a result for that site stays as it is.
pub open spec fn replaced_by_site(results: Seq<ResultView>, checked: ResultView) -> Seq<ResultView> {
    if exists|at: int| is_first_for(results, checked.site, at) {
        results.update(choose|at: int| is_first_for(results, checked.site, at), checked)
    } else {
        results
    }
}

/// A replacement changes no more than the first result for the site of the
/// checked result, and leaves every result with its site.
pub proof fn lemma_replaced_keeps_sites(results: Seq<ResultView>, checked: ResultView)
    ensures
        replaced_by_site(results, checked).len() == results.len(),
        forall|k: int|
            0 <= k < results.len() ==> {
                &&& (#[trigger] replaced_by_site(results, checked)[k]).site == results[k].site
                &&& replaced_by_site(results, checked)[k] == (if is_first_for(
                    results,
                    checked.site,
                    k,
                ) {
                    checked
                } else {
                    results[k]
                })
            },
{
    if exists|at: int| is_first_for(results, checked.site, at) {
        let at = choose|at: int| is_first_for(results, checked.site, at);
        assert forall|k: int| 0 <= k < results.len() implies (is_first_for(
            results,
            checked.site,
            k,
        ) <==> k == at) by {
            if is_first_for(results, checked.site, k) {
                if k < at {
                    assert(results[k].site != checked.site);
                }
                if at < k {
                    assert(results[at].site != checked.site);
                }
            }
        }
    }
}

/// Where the list has a result for the site of the checked result, the
/// first result for that site is the checked one after the replacement: the
/// second pass has the last word on the site.
pub proof fn lemma_checked_result_stands(results: Seq<ResultView>, checked: ResultView)
    requires
        exists|k: int| 0 <= k < results.len() && (#[trigger] results[k]).site == checked.site,
    ensures
        exists|at: int|
            {
                &&& #[trigger] is_first_for(replaced_by_site(results, checked), checked.site, at)
                &&& is_first_for(results, checked.site, at)
                &&& replaced_by_site(results, checked)[at] == checked
            },
{
    let some = choose|k: int| 0 <= k < results.len() && (#[trigger] results[k]).site == checked.site;
    let at = lemma_first_for_exists(results, checked.site, some);
    lemma_replaced_keeps_sites(results, checked);
    let after = replaced_by_site(results, checked);
    assert forall|j: int| 0 <= j < at implies (#[trigger] after[j]).site != checked.site by {
        assert(results[j].site != checked.site);
    }
    assert(is_first_for(after, checked.site, at));
}

/// A list with a result for a site has a first result for it.
pub proof fn lemma_first_for_exists(results: Seq<ResultView>, site: Seq<char>, some: int) -> (at:
    int)
    requires
        0 <= some < results.len(),
        results[some].site == site,
    ensures
        is_first_for(results, site, at),
        at <= some,
    decreases some,
{
    if exists|j: int| 0 <= j < some && (#[trigger] results[j]).site == site {
        let j = choose|j: int| 0 <= j < some && (#[trigger] results[j]).site == site;
        lemma_first_for_exists(results, site, j)
    } else {
        some
    }
}

/// A replacement leaves every result for another site exactly as it was.
pub proof fn lemma_other_sites_untouched(results: Seq<ResultView>, checked: ResultView, k: int)
    requires
        0 <= k < results.len(),
        results[k].site != checked.site,
    ensures
        replaced_by_site(results, checked)[k] == results[k],
{
    lemma_replaced_keeps_sites(results, checked);
}

/// The result for a finding.
pub fn finding(site: &str, username: &str, url: &str, exists: bool) -> (r: SearchResult)
    ensures
        r@ == finding_view(site@, username@, url@, exists),
{
    if exists {
        SearchResult::found(site.to_owned(), username.to_owned(), url.to_owned())
    } else {
        SearchResult::not_found(site.to_owned(), username.to_owned())
    }
}

/// The result of the first pass for a reading of the response.
pub fn first_pass_result(
    site: &str,
    username: &str,
    url: &str,
    rendering: bool,
    status_code: u16,
    reading: Option<bool>,
) -> (r: SearchResult)
    ensures
        r@ == finding_view(
            site@,
            username@,
            url@,
            first_pass_exists(reading, rendering, status_code),
        ),
{
    let exists = match reading {
        Some(exists) => exists,
        None => rendering && 200 <= status_code && status_code <= 299,
    };
    finding(site, username, url, exists)
}

/// The result of the second pass for a reading of the response.
pub fn second_pass_result(site: &str, username: &str, url: &str, reading: Option<bool>) -> (r:
    SearchResult)
    ensures
        r@ == finding_view(site@, username@, url@, second_pass_exists(reading)),
{
    let exists = match reading {
        Some(exists) => exists,
        None => false,
    };
    finding(site, username, url, exists)
}

/// Lets the site read a response of the first pass and gives the result.
pub fn check_first_pass<S: Site + ?Sized>(
    site: &S,
    username: &str,
    url: &str,
    rendering: bool,
    response: &RequestResponse,
) -> (r: SearchResult)
    ensures
        is_first_pass_result(
            site,
            username@,
            url@,
            rendering,
            response.status_code,
            response.body_text(),
            r@,
        ),
{
    let body = response.body_str();
    let reading = site.parse_response(username, response.status_code, body);
    proof {
        assert(crate::sites::site::body_text(body) == response.body_text());
        assert(classifies(site, username@, response.status_code, response.body_text(), reading));
    }
    first_pass_result(site.name(), username, url, rendering, response.status_code, reading)
}

/// Lets the site read a response of the second pass and gives the result.
pub fn check_second_pass<S: Site + ?Sized>(
    site: &S,
    username: &str,
    url: &str,
    response: &RequestResponse,
) -> (r: SearchResult)
    ensures
        is_second_pass_result(
            site,
            username@,
            url@,
            response.status_code,
            response.body_text(),
            r@,
        ),
{
    let body = response.body_str();
    let reading = site.parse_response(username, response.status_code, body);
    proof {
        assert(crate::sites::site::body_text(body) == response.body_text());
        assert(classifies(site, username@, response.status_code, response.body_text(), reading));
    }
    second_pass_result(site.name(), username, url, reading)
}

/// Whether a result of the list says that the username exists on the named
/// site.
pub fn is_found_on(results: &Vec<SearchResult>, site: &str) -> (r: bool)
    ensures
        r == found_on(views(results@), site@),
{
    let mut k: usize = 0;
    while k < results.len()
        invariant
            k <= results@.len(),
            forall|j: int|
                0 <= j < k ==> !((#[trigger] views(results@)[j]).site == site@ && views(
                    results@,
                )[j].exists),
        decreases results@.len() - k,
    {
        if results[k].exists && same_text(results[k].site.as_str(), site) {
            assert(views(results@)[k as int].site == site@);
            return true;
        }
        k += 1;
    }
    false
}

/// Puts a checked result in the place of the first result for its site. A
/// list without a result for that site stays as it is.
pub fn apply_verification(results: &mut Vec<SearchResult>, checked: SearchResult)
    ensures
        views(final(results)@) == replaced_by_site(views(old(results)@), checked@),
{
    let ghost before = views(results@);
    let mut k: usize = 0;
    while k < results.len()
        invariant
            k <= results@.len(),
            results@ == old(results)@,
            before == views(results@),
            forall|j: int| 0 <= j < k ==> (#[trigger] before[j]).site != checked@.site,
        decreases results@.len() - k,
    {
        if same_text(results[k].site.as_str(), checked.site.as_str()) {
            proof {
                assert(is_first_for(before, checked@.site, k as int));
                let at = choose|at: int| is_first_for(before, checked@.site, at);
                assert(at == k) by {
                    if at < k {
                        assert(before[at].site != checked@.site);
                    }
                    if k < at {
                        assert(before[k as int].site == checked@.site);
                    }
                }
            }
            results.set(k, checked);
            proof {
                assert(views(results@) =~= before.update(k as int, checked@));
            }
            return ;
        }
        k += 1;
    }
    proof {
        assert forall|at: int| !is_first_for(before, checked@.site, at) by {
            if 0 <= at < before.len() {
                assert(before[at].site != checked@.site);
            }
        }
    }
}

} // verus!
