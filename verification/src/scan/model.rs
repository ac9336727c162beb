//! What a scan amounts to: the results as a function of what the sites and
//! the transports gave, and what follows from it.

use crate::request::trait_impl::{Request, RequestResponse};
use crate::request::RequestType;
use crate::scan::probe::{
    found_on,
    is_first_for,
    is_first_pass_result,
    is_second_pass_result,
    lemma_first_pass_repeats,
    lemma_other_sites_untouched,
    lemma_replaced_keeps_sites,
    lemma_second_pass_repeats,
    needs_verification,
    replaced_by_site,
};
use crate::scan::protocol::{is_plan_of, names_differ, sites_differ};
use crate::scan::result::ResultView;
use crate::sites::site::{is_steady, Site};
use crate::utils::error::SleuthError;
use vstd::prelude::*;

verus! {

/// `answer` is what the transport for a probe gives when it is asked: the
/// browser for the method that the site names, the plain transport for a GET
/// where the site asks for exactly that and for a HEAD otherwise.
pub open spec fn is_answer_to<P: Request + ?Sized, V: Request + ?Sized>(
    url: Seq<char>,
    method: Seq<char>,
    kind: RequestType,
    transport: &P,
    renderer: &V,
    answer: Result<RequestResponse, SleuthError>,
) -> bool {
    exists|address: &str, word: &str|
        #![trigger address@, word@]
        address@ == url && word@ == method && (if kind == RequestType::Browser {
            call_ensures(V::request, (renderer, word, address), answer)
        } else if method == "GET"@ {
            call_ensures(P::get, (transport, address), answer)
        } else {
            call_ensures(P::head, (transport, address), answer)
        })
}

/// Two answers are the same: both are failures, or both are responses with
/// the same status code and the same body.
pub open spec fn same_answer(
    one: Result<RequestResponse, SleuthError>,
    other: Result<RequestResponse, SleuthError>,
) -> bool {
    match (one, other) {
        (Ok(a), Ok(b)) => a.status_code == b.status_code && a.body_text() == b.body_text(),
        (Err(_), Err(_)) => true,
        _ => false,
    }
}

/// The transports answer steadily: whenever they are asked the same, they
/// give the same answer.
pub open spec fn answer_steadily<P: Request + ?Sized, V: Request + ?Sized>(
    transport: &P,
    renderer: &V,
) -> bool {
    forall|
        url: Seq<char>,
        method: Seq<char>,
        kind: RequestType,
        one: Result<RequestResponse, SleuthError>,
        other: Result<RequestResponse, SleuthError>,
    |
        #![trigger is_answer_to(url, method, kind, transport, renderer, one), is_answer_to(url, method, kind, transport, renderer, other)]
        is_answer_to(url, method, kind, transport, renderer, one) && is_answer_to(
            url,
            method,
            kind,
            transport,
            renderer,
            other,
        ) ==> same_answer(one, other)
}

/// What a scan has from a site before it probes: the address, the request
/// method and the need for a browser.
pub struct Plan {
    /// The address to probe.
    pub url: Seq<char>,
    /// The request method that the site asks for.
    pub method: Seq<char>,
    /// Whether the site says that it needs a browser.
    pub rendering: bool,
}

/// `outcome` is the outcome of the first probe of a site: no result where the
/// plain transport fails, else a result of the first pass for its response.
pub open spec fn is_first_outcome<S: Site + ?Sized, P: Request + ?Sized, V: Request + ?Sized>(
    site: &S,
    username: Seq<char>,
    plan: Plan,
    transport: &P,
    renderer: &V,
    outcome: Option<ResultView>,
) -> bool {
    exists|answer: Result<RequestResponse, SleuthError>| #[trigger]
        is_answer_to(plan.url, plan.method, RequestType::Http, transport, renderer, answer)
            && match answer {
            Ok(response) => outcome matches Some(result) && is_first_pass_result(
                site,
                username,
                plan.url,
                plan.rendering,
                response.status_code,
                response.body_text(),
                result,
            ),
            Err(_) => outcome is None,
        }
}

/// `outcome` is the outcome of the second probe of a site. A site that is
/// not due for one has none. For a site that is due, there is no result
/// where the browser fails, else a result of the second pass for its
/// response.
pub open spec fn is_second_outcome<S: Site + ?Sized, P: Request + ?Sized, V: Request + ?Sized>(
    site: &S,
    username: Seq<char>,
    plan: Plan,
    transport: &P,
    renderer: &V,
    due: bool,
    outcome: Option<ResultView>,
) -> bool {
    if due {
        exists|answer: Result<RequestResponse, SleuthError>| #[trigger]
            is_answer_to(plan.url, plan.method, RequestType::Browser, transport, renderer, answer)
                && match answer {
                Ok(response) => outcome matches Some(result) && is_second_pass_result(
                    site,
                    username,
                    plan.url,
                    response.status_code,
                    response.body_text(),
                    result,
                ),
                Err(_) => outcome is None,
            }
    } else {
        outcome is None
    }
}

/// The results that a pass has collected: those of the outcomes that hold
/// one, in the order of the outcomes.
pub open spec fn collected(outcomes: Seq<Option<ResultView>>) -> Seq<ResultView>
    decreases outcomes.len(),
{
    if outcomes.len() == 0 {
        Seq::empty()
    } else {
        let rest = collected(outcomes.drop_last());
        match outcomes.last() {
            Some(result) => rest.push(result),
            None => rest,
        }
    }
}

/// The results after the second pass: each checked result, in the order of
/// the outcomes, has replaced the first result for its site.
pub open spec fn merged(results: Seq<ResultView>, checked: Seq<Option<ResultView>>) -> Seq<
    ResultView,
>
    decreases checked.len(),
{
    if checked.len() == 0 {
        results
    } else {
        let rest = merged(results, checked.drop_last());
        match checked.last() {
            Some(result) => replaced_by_site(rest, result),
            None => rest,
        }
    }
}

/// `results` are the results of a scan in which the sites gave `plans` and
/// the probes had the outcomes `first` and `second`, all in the order of
/// the sites. Every site is probed once with the plain transport. The sites
/// that are then due for the second pass are probed once with the browser.
/// The results are those of the first pass, with the results of the second
/// pass in the place of the first ones.
pub open spec fn is_scan_by<'a, S: Site + ?Sized, P: Request + ?Sized, V: Request + ?Sized>(
    sites: Seq<&'a S>,
    username: Seq<char>,
    transport: &P,
    renderer: &V,
    verify: bool,
    plans: Seq<Plan>,
    first: Seq<Option<ResultView>>,
    second: Seq<Option<ResultView>>,
    results: Seq<ResultView>,
) -> bool {
    &&& plans.len() == sites.len()
    &&& first.len() == sites.len()
    &&& second.len() == sites.len()
    &&& forall|i: int|
        0 <= i < sites.len() ==> is_plan_of(
            #[trigger] sites[i],
            username,
            plans[i].url,
            plans[i].method,
            plans[i].rendering,
        )
    &&& forall|i: int|
        0 <= i < sites.len() ==> is_first_outcome(
            #[trigger] sites[i],
            username,
            plans[i],
            transport,
            renderer,
            first[i],
        )
    &&& forall|i: int|
        0 <= i < sites.len() ==> is_second_outcome(
            #[trigger] sites[i],
            username,
            plans[i],
            transport,
            renderer,
            verify && needs_verification(
                collected(first),
                sites[i].name_spec(),
                plans[i].rendering,
            ),
            second[i],
        )
    &&& results == merged(collected(first), second)
}

/// `results` are the results of a scan of the username over the sites with
/// the two transports, whatever the sites and the transports gave.
pub open spec fn is_scan_of<'a, S: Site + ?Sized, P: Request + ?Sized, V: Request + ?Sized>(
    sites: Seq<&'a S>,
    username: Seq<char>,
    transport: &P,
    renderer: &V,
    verify: bool,
    results: Seq<ResultView>,
) -> bool {
    exists|plans: Seq<Plan>, first: Seq<Option<ResultView>>, second: Seq<Option<ResultView>>|
        #[trigger] is_scan_by(
            sites,
            username,
            transport,
            renderer,
            verify,
            plans,
            first,
            second,
            results,
        )
}

/// The second pass changes no place of a result and no site of one.
pub proof fn lemma_merged_keeps_sites(results: Seq<ResultView>, checked: Seq<Option<ResultView>>)
    ensures
        merged(results, checked).len() == results.len(),
        forall|k: int|
            0 <= k < results.len() ==> (#[trigger] merged(results, checked)[k]).site
                == results[k].site,
    decreases checked.len(),
{
    if checked.len() > 0 {
        let rest = merged(results, checked.drop_last());
        lemma_merged_keeps_sites(results, checked.drop_last());
        match checked.last() {
            Some(result) => {
                lemma_replaced_keeps_sites(rest, result);
            },
            None => {},
        }
    }
}

/// A result stays exactly as it was where no checked result is for its
/// site.
pub proof fn lemma_merged_spares(
    results: Seq<ResultView>,
    checked: Seq<Option<ResultView>>,
    k: int,
)
    requires
        0 <= k < results.len(),
        forall|j: int|
            0 <= j < checked.len() && (#[trigger] checked[j]) is Some ==> checked[j]->0.site
                != results[k].site,
    ensures
        merged(results, checked)[k] == results[k],
    decreases checked.len(),
{
    if checked.len() > 0 {
        let front = checked.drop_last();
        let rest = merged(results, front);
        assert forall|j: int| 0 <= j < front.len() && (#[trigger] front[j]) is Some implies front[j]->0.site
            != results[k].site by {
            assert(front[j] == checked[j]);
        }
        lemma_merged_spares(results, front, k);
        lemma_merged_keeps_sites(results, front);
        match checked.last() {
            Some(result) => {
                assert(checked[checked.len() - 1] is Some);
                lemma_other_sites_untouched(rest, result, k);
            },
            None => {},
        }
    }
}

/// Where no two results are for the same site and one checked result is for
/// a site, that checked result stands in the place of the first result for
/// the site.
pub proof fn lemma_merged_takes(
    results: Seq<ResultView>,
    checked: Seq<Option<ResultView>>,
    k: int,
    i: int,
)
    requires
        sites_differ(results),
        0 <= k < results.len(),
        0 <= i < checked.len(),
        checked[i] is Some,
        checked[i]->0.site == results[k].site,
        forall|j: int|
            0 <= j < checked.len() && j != i && (#[trigger] checked[j]) is Some
                ==> checked[j]->0.site != results[k].site,
    ensures
        merged(results, checked)[k] == checked[i]->0,
    decreases checked.len(),
{
    let front = checked.drop_last();
    let rest = merged(results, front);
    let last = checked.len() - 1;
    lemma_merged_keeps_sites(results, front);
    if i == last {
        assert forall|j: int| 0 <= j < front.len() && (#[trigger] front[j]) is Some implies front[j]->0.site
            != results[k].site by {
            assert(front[j] == checked[j]);
        }
        lemma_merged_spares(results, front, k);
        let result = checked[i]->0;
        assert(is_first_for(rest, result.site, k)) by {
            assert forall|j: int| 0 <= j < k implies (#[trigger] rest[j]).site != result.site by {
                assert(results[j].site != results[k].site);
            }
        }
        lemma_replaced_keeps_sites(rest, result);
    } else {
        assert forall|j: int|
            0 <= j < front.len() && j != i && (#[trigger] front[j]) is Some implies front[j]->0.site
            != results[k].site by {
            assert(front[j] == checked[j]);
        }
        assert(front[i] == checked[i]);
        lemma_merged_takes(results, front, k, i);
        match checked.last() {
            Some(result) => {
                assert(checked[last] is Some);
                lemma_other_sites_untouched(rest, result, k);
            },
            None => {},
        }
    }
}

/// The results of the first pass are results of different probes: each
/// comes from the outcome of a site, and where the outcomes of different
/// sites are never for the same site name, no two results are.
pub proof fn lemma_collected_from_outcomes(first: Seq<Option<ResultView>>, names: Seq<Seq<char>>)
    requires
        names.len() == first.len(),
        forall|i: int|
            0 <= i < first.len() && (#[trigger] first[i]) is Some ==> first[i]->0.site == names[i],
        forall|i: int, j: int|
            0 <= i < j < names.len() ==> (#[trigger] names[i]) != (#[trigger] names[j]),
    ensures
        sites_differ(collected(first)),
        forall|k: int|
            0 <= k < collected(first).len() ==> exists|i: int|
                0 <= i < first.len() && first[i] == Some(#[trigger] collected(first)[k]),
    decreases first.len(),
{
    if first.len() > 0 {
        let front = first.drop_last();
        let last = first.len() - 1;
        assert forall|i: int| 0 <= i < front.len() && (#[trigger] front[i]) is Some implies front[i]->0.site
            == names.drop_last()[i] by {
            assert(front[i] == first[i]);
        }
        assert forall|i: int, j: int| 0 <= i < j < names.drop_last().len() implies (
        #[trigger] names.drop_last()[i]) != (#[trigger] names.drop_last()[j]) by {
            assert(names[i] != names[j]);
        }
        lemma_collected_from_outcomes(front, names.drop_last());
        let rest = collected(front);
        let all = collected(first);
        assert forall|k: int| 0 <= k < all.len() implies exists|i: int|
            0 <= i < first.len() && first[i] == Some(#[trigger] all[k]) by {
            if k < rest.len() {
                assert(all[k] == rest[k]);
                let i = choose|i: int| 0 <= i < front.len() && front[i] == Some(rest[k]);
                assert(first[i] == Some(all[k]));
            } else {
                assert(first[last] == Some(all[k]));
            }
        }
        assert forall|a: int, b: int| 0 <= a < b < all.len() implies (#[trigger] all[a]).site != (
        #[trigger] all[b]).site by {
            if b < rest.len() {
                assert(rest[a].site != rest[b].site);
            } else {
                let i = choose|i: int| 0 <= i < front.len() && front[i] == Some(rest[a]);
                assert(first[i] is Some);
                assert(first[last] is Some);
                assert(names[i] != names[last]);
            }
        }
    }
}

/// What a scan holds of the sites and the outcomes: every result of an
/// outcome is for the site of the outcome, and only sites that need a
/// browser have an outcome of the second pass.
pub proof fn lemma_outcomes_match_sites<'a, S: Site + ?Sized, P: Request + ?Sized, V: Request + ?Sized>(
    sites: Seq<&'a S>,
    username: Seq<char>,
    transport: &P,
    renderer: &V,
    verify: bool,
    plans: Seq<Plan>,
    first: Seq<Option<ResultView>>,
    second: Seq<Option<ResultView>>,
    results: Seq<ResultView>,
)
    requires
        is_scan_by(sites, username, transport, renderer, verify, plans, first, second, results),
    ensures
        forall|i: int|
            0 <= i < sites.len() && (#[trigger] first[i]) is Some ==> first[i]->0.site
                == sites[i].name_spec(),
        forall|i: int|
            0 <= i < sites.len() && (#[trigger] second[i]) is Some ==> {
                &&& second[i]->0.site == sites[i].name_spec()
                &&& verify
                &&& plans[i].rendering
                &&& found_on(collected(first), sites[i].name_spec())
            },
{
    assert forall|i: int| 0 <= i < sites.len() && (#[trigger] first[i]) is Some implies first[i]->0.site
        == sites[i].name_spec() by {
        assert(is_first_outcome(sites[i], username, plans[i], transport, renderer, first[i]));
    }
    assert forall|i: int| 0 <= i < sites.len() && (#[trigger] second[i]) is Some implies {
        &&& second[i]->0.site == sites[i].name_spec()
        &&& verify
        &&& plans[i].rendering
        &&& found_on(collected(first), sites[i].name_spec())
    } by {
        assert(is_second_outcome(
            sites[i],
            username,
            plans[i],
            transport,
            renderer,
            verify && needs_verification(
                collected(first),
                sites[i].name_spec(),
                plans[i].rendering,
            ),
            second[i],
        ));
    }
}

/// The second pass never touches a site that does not need a browser. Where
/// no two sites share a name, the result of the first pass for such a site
/// is, unchanged and in its place, among the results of the scan.
pub proof fn lemma_plain_sites_keep_first_result<
    'a,
    S: Site + ?Sized,
    P: Request + ?Sized,
    V: Request + ?Sized,
>(
    sites: Seq<&'a S>,
    username: Seq<char>,
    transport: &P,
    renderer: &V,
    verify: bool,
    plans: Seq<Plan>,
    first: Seq<Option<ResultView>>,
    second: Seq<Option<ResultView>>,
    results: Seq<ResultView>,
    i: int,
    k: int,
)
    requires
        is_scan_by(sites, username, transport, renderer, verify, plans, first, second, results),
        names_differ(sites),
        0 <= i < sites.len(),
        !plans[i].rendering,
        0 <= k < collected(first).len(),
        collected(first)[k].site == sites[i].name_spec(),
    ensures
        results.len() == collected(first).len(),
        results[k] == collected(first)[k],
{
    lemma_outcomes_match_sites(
        sites,
        username,
        transport,
        renderer,
        verify,
        plans,
        first,
        second,
        results,
    );
    lemma_merged_keeps_sites(collected(first), second);
    assert forall|j: int| 0 <= j < second.len() && (#[trigger] second[j]) is Some implies second[j]->0.site
        != collected(first)[k].site by {
        if j < i {
            assert(sites[j].name_spec() != sites[i].name_spec());
        } else if i < j {
            assert(sites[i].name_spec() != sites[j].name_spec());
        }
    }
    lemma_merged_spares(collected(first), second, k);
}

/// The second pass has the last word. Where no two sites share a name and
/// the second probe of a site gave a result, that result stands among the
/// results of the scan, in the place of the result of the first pass for
/// the site, and no other result is for the site.
pub proof fn lemma_checked_sites_end_with_second_result<
    'a,
    S: Site + ?Sized,
    P: Request + ?Sized,
    V: Request + ?Sized,
>(
    sites: Seq<&'a S>,
    username: Seq<char>,
    transport: &P,
    renderer: &V,
    verify: bool,
    plans: Seq<Plan>,
    first: Seq<Option<ResultView>>,
    second: Seq<Option<ResultView>>,
    results: Seq<ResultView>,
    i: int,
)
    requires
        is_scan_by(sites, username, transport, renderer, verify, plans, first, second, results),
        names_differ(sites),
        0 <= i < sites.len(),
        second[i] is Some,
    ensures
        exists|k: int|
            {
                &&& 0 <= k < results.len()
                &&& #[trigger] results[k] == second[i]->0
                &&& collected(first)[k].site == sites[i].name_spec()
                &&& collected(first)[k].exists
            },
        forall|k: int|
            0 <= k < results.len() && (#[trigger] results[k]).site == sites[i].name_spec()
                ==> results[k] == second[i]->0,
{
    lemma_outcomes_match_sites(
        sites,
        username,
        transport,
        renderer,
        verify,
        plans,
        first,
        second,
        results,
    );
    let names = Seq::new(sites.len(), |j: int| sites[j].name_spec());
    assert forall|a: int, b: int| 0 <= a < b < names.len() implies (#[trigger] names[a]) != (
    #[trigger] names[b]) by {
        assert(sites[a].name_spec() != sites[b].name_spec());
    }
    lemma_collected_from_outcomes(first, names);
    let before = collected(first);
    lemma_merged_keeps_sites(before, second);
    assert(second[i] is Some);
    let k = choose|k: int|
        0 <= k < before.len() && (#[trigger] before[k]).site == sites[i].name_spec()
            && before[k].exists;
    assert forall|j: int|
        0 <= j < second.len() && j != i && (#[trigger] second[j]) is Some implies second[j]->0.site
        != before[k].site by {
        if j < i {
            assert(sites[j].name_spec() != sites[i].name_spec());
        } else {
            assert(sites[i].name_spec() != sites[j].name_spec());
        }
    }
    lemma_merged_takes(before, second, k, i);
    assert(results[k] == second[i]->0);
    assert forall|m: int|
        0 <= m < results.len() && (#[trigger] results[m]).site == sites[i].name_spec() implies results[m]
        == second[i]->0 by {
        assert(before[m].site == before[k].site);
        if m < k {
            assert(before[m].site != before[k].site);
        } else if k < m {
            assert(before[k].site != before[m].site);
        }
    }
}

/// Outcomes without a result, at the end of a list, change nothing in what
/// the second pass leaves.
pub proof fn lemma_merged_skips_none(
    results: Seq<ResultView>,
    checked: Seq<Option<ResultView>>,
    from: int,
)
    requires
        0 <= from <= checked.len(),
        forall|i: int| from <= i < checked.len() ==> checked[i] is None,
    ensures
        merged(results, checked) == merged(results, checked.take(from)),
    decreases checked.len() - from,
{
    if from < checked.len() {
        let front = checked.drop_last();
        lemma_merged_skips_none(results, front, from);
        assert(front.take(from) =~= checked.take(from));
    } else {
        assert(checked.take(from) =~= checked);
    }
}

/// Replaying a scan gives the same results. Two scans of the same username
/// over the same sites agree in every result and every field of it, where
/// the sites and the transports answer steadily.
pub proof fn lemma_scan_repeats<'a, S: Site + ?Sized, P: Request + ?Sized, V: Request + ?Sized>(
    sites: Seq<&'a S>,
    username: Seq<char>,
    transport: &P,
    renderer: &V,
    verify: bool,
    one: (Seq<Plan>, Seq<Option<ResultView>>, Seq<Option<ResultView>>, Seq<ResultView>),
    other: (Seq<Plan>, Seq<Option<ResultView>>, Seq<Option<ResultView>>, Seq<ResultView>),
)
    requires
        forall|i: int| 0 <= i < sites.len() ==> is_steady(#[trigger] sites[i]),
        answer_steadily(transport, renderer),
        is_scan_by(sites, username, transport, renderer, verify, one.0, one.1, one.2, one.3),
        is_scan_by(
            sites,
            username,
            transport,
            renderer,
            verify,
            other.0,
            other.1,
            other.2,
            other.3,
        ),
    ensures
        one.3 == other.3,
{
    assert forall|i: int| 0 <= i < sites.len() implies one.0[i] == other.0[i] by {
        assert(is_plan_of(sites[i], username, one.0[i].url, one.0[i].method, one.0[i].rendering));
        assert(is_plan_of(
            sites[i],
            username,
            other.0[i].url,
            other.0[i].method,
            other.0[i].rendering,
        ));
        assert(is_steady(sites[i]));
    }
    assert(one.0 =~= other.0);
    assert forall|i: int| 0 <= i < sites.len() implies one.1[i] == other.1[i] by {
        let plan = one.0[i];
        assert(is_plan_of(sites[i], username, plan.url, plan.method, plan.rendering));
        assert(is_first_outcome(sites[i], username, plan, transport, renderer, one.1[i]));
        assert(is_first_outcome(sites[i], username, plan, transport, renderer, other.1[i]));
        let a = choose|answer: Result<RequestResponse, SleuthError>| #[trigger]
            is_answer_to(plan.url, plan.method, RequestType::Http, transport, renderer, answer)
                && match answer {
                Ok(response) => one.1[i] matches Some(result) && is_first_pass_result(
                    sites[i],
                    username,
                    plan.url,
                    plan.rendering,
                    response.status_code,
                    response.body_text(),
                    result,
                ),
                Err(_) => one.1[i] is None,
            };
        let b = choose|answer: Result<RequestResponse, SleuthError>| #[trigger]
            is_answer_to(plan.url, plan.method, RequestType::Http, transport, renderer, answer)
                && match answer {
                Ok(response) => other.1[i] matches Some(result) && is_first_pass_result(
                    sites[i],
                    username,
                    plan.url,
                    plan.rendering,
                    response.status_code,
                    response.body_text(),
                    result,
                ),
                Err(_) => other.1[i] is None,
            };
        assert(same_answer(a, b));
        if a is Ok {
            lemma_first_pass_repeats(
                sites[i],
                username,
                plan.url,
                plan.rendering,
                a->Ok_0.status_code,
                a->Ok_0.body_text(),
                one.1[i]->0,
                other.1[i]->0,
            );
        }
    }
    assert(one.1 =~= other.1);
    assert forall|i: int| 0 <= i < sites.len() implies one.2[i] == other.2[i] by {
        let plan = one.0[i];
        let due = verify && needs_verification(
            collected(one.1),
            sites[i].name_spec(),
            plan.rendering,
        );
        assert(is_second_outcome(sites[i], username, plan, transport, renderer, due, one.2[i]));
        assert(is_second_outcome(sites[i], username, plan, transport, renderer, due, other.2[i]));
        if due {
            let a = choose|answer: Result<RequestResponse, SleuthError>| #[trigger]
                is_answer_to(
                    plan.url,
                    plan.method,
                    RequestType::Browser,
                    transport,
                    renderer,
                    answer,
                ) && match answer {
                    Ok(response) => one.2[i] matches Some(result) && is_second_pass_result(
                        sites[i],
                        username,
                        plan.url,
                        response.status_code,
                        response.body_text(),
                        result,
                    ),
                    Err(_) => one.2[i] is None,
                };
            let b = choose|answer: Result<RequestResponse, SleuthError>| #[trigger]
                is_answer_to(
                    plan.url,
                    plan.method,
                    RequestType::Browser,
                    transport,
                    renderer,
                    answer,
                ) && match answer {
                    Ok(response) => other.2[i] matches Some(result) && is_second_pass_result(
                        sites[i],
                        username,
                        plan.url,
                        response.status_code,
                        response.body_text(),
                        result,
                    ),
                    Err(_) => other.2[i] is None,
                };
            assert(same_answer(a, b));
            if a is Ok {
                lemma_second_pass_repeats(
                    sites[i],
                    username,
                    plan.url,
                    a->Ok_0.status_code,
                    a->Ok_0.body_text(),
                    one.2[i]->0,
                    other.2[i]->0,
                );
            }
        }
    }
    assert(one.2 =~= other.2);
}

} // verus!
