//! Narrowing a list of sites, and scanning a username over one.

use crate::data::site_info::SiteType;
use crate::request::trait_impl::{Method, Request, RequestResponse};
use crate::request::RequestType;
use crate::scan::model::{
    collected,
    is_answer_to,
    is_first_outcome,
    is_scan_by,
    is_scan_of,
    is_second_outcome,
    lemma_merged_skips_none,
    merged,
    Plan,
};
use crate::scan::probe::{
    is_first_pass_result,
    is_second_pass_result,
    needs_verification,
    replaced_by_site,
    views,
};
use crate::scan::protocol::{
    names_come_from,
    names_differ,
    sites_differ,
    Probe,
    Scan,
    ScanPhase,
};
use crate::scan::result::{ResultView, SearchResult};
use crate::sites::selection::{
    holds_type,
    key_listed,
    lemma_filter_keeps_all,
    lowercase_keys,
    name_allowed,
    site_allowed,
    type_allowed,
};
use crate::sites::site::Site;
use crate::utils::error::SleuthError;
use crate::utils::text::lowercase;
use std::sync::Arc;
use vstd::prelude::*;

verus! {

/// The sites whose category is among `allowed_types`, in the order in which
/// they were given; all sites if `allowed_types` is empty.
pub fn filter_sites_by_type<S: Site + ?Sized>(sites: Vec<Arc<S>>, allowed_types: &[SiteType]) -> (r:
    Vec<Arc<S>>)
    ensures
        r@ == sites@.filter(|s: Arc<S>| type_allowed(s.site_type_spec(), allowed_types@)),
{
    let names: Vec<String> = Vec::new();
    proof {
        let both = |s: Arc<S>| site_allowed(&*s, allowed_types@, names@);
        let only = |s: Arc<S>| type_allowed(s.site_type_spec(), allowed_types@);
        assert(both =~= only);
    }
    filter_sites(sites, allowed_types, names.as_slice())
}

/// The sites whose name is among `allowed_names`, case aside, in the order
/// in which they were given; all sites if `allowed_names` is empty.
pub fn filter_sites_by_name<S: Site + ?Sized>(sites: Vec<Arc<S>>, allowed_names: &[String]) -> (r:
    Vec<Arc<S>>)
    ensures
        r@ == sites@.filter(|s: Arc<S>| name_allowed(s.name_spec(), allowed_names@)),
{
    let types: Vec<SiteType> = Vec::new();
    proof {
        let both = |s: Arc<S>| site_allowed(&*s, types@, allowed_names@);
        let only = |s: Arc<S>| name_allowed(s.name_spec(), allowed_names@);
        assert(both =~= only);
    }
    filter_sites(sites, types.as_slice(), allowed_names)
}

/// The sites that pass both filters, in the order in which they were given.
/// An empty filter lets every site pass.
pub fn filter_sites<S: Site + ?Sized>(
    sites: Vec<Arc<S>>,
    allowed_types: &[SiteType],
    allowed_names: &[String],
) -> (r: Vec<Arc<S>>)
    ensures
        r@ == sites@.filter(|s: Arc<S>| site_allowed(&*s, allowed_types@, allowed_names@)),
        allowed_types@.len() == 0 && allowed_names@.len() == 0 ==> r@ == sites@,
{
    proof {
        if allowed_types@.len() == 0 && allowed_names@.len() == 0 {
            lemma_filter_keeps_all(
                sites@,
                |s: Arc<S>| site_allowed(&*s, allowed_types@, allowed_names@),
            );
        }
    }
    let ghost keep = |s: Arc<S>| site_allowed(&*s, allowed_types@, allowed_names@);
    let keys = lowercase_keys(allowed_names);
    let mut out: Vec<Arc<S>> = Vec::new();
    proof {
        reveal(Seq::filter);
        assert(sites@.take(0).filter(keep) =~= Seq::<Arc<S>>::empty());
    }
    for site in it: sites.into_iter()
        invariant
            it.seq() == sites@,
            keep == (|s: Arc<S>| site_allowed(&*s, allowed_types@, allowed_names@)),
            keys@.len() == allowed_names@.len(),
            forall|k: int|
                0 <= k < allowed_names@.len() ==> (#[trigger] keys@[k])@ == lowercase(
                    allowed_names@[k]@,
                ),
            out@ == sites@.take(it.index() as int).filter(keep),
    {
        proof {
            assert(sites@.take(it.index() + 1) =~= sites@.take(it.index() as int).push(site));
            sites@.take(it.index() as int).lemma_filter_push(site, keep);
        }
        let type_ok = allowed_types.len() == 0 || holds_type(allowed_types, site.site_type());
        if type_ok {
            let name_ok = allowed_names.len() == 0 || key_listed(
                &keys,
                site.name(),
                Ghost(allowed_names@),
            );
            if name_ok {
                out.push(site);
            }
        }
    }
    proof {
        assert(sites@.take(sites@.len() as int) =~= sites@);
    }
    out
}

/// The sites of a list, each as a reference, in the same order.
pub open spec fn borrowed<'a, S: ?Sized>(sites: Seq<Arc<S>>) -> Seq<&'a S> {
    Seq::new(sites.len(), |i: int| &*sites[i])
}

/// Sends one probe and gives the response, or `None` where the probe
/// failed. A probe for the browser goes to `renderer`, any other to
/// `transport`. The failure itself is dropped: a site whose probe fails is
/// left out, and the scan goes on.
pub fn send<P: Request + ?Sized, V: Request + ?Sized>(
    probe: &Probe,
    transport: &P,
    renderer: &V,
) -> (r: Option<RequestResponse>)
    ensures
        exists|answer: Result<RequestResponse, SleuthError>| #[trigger]
            is_answer_to(probe.url@, probe.method@, probe.transport, transport, renderer, answer)
                && r == (match answer {
                Ok(response) => Some(response),
                Err(_) => None,
            }),
{
    let url = probe.url.as_str();
    let answer = match probe.transport {
        RequestType::Browser => renderer.request(probe.method, url),
        _ => match probe.request_method() {
            Ok(Method::Get) => transport.get(url),
            _ => transport.head(url),
        },
    };
    proof {
        assert(url@ == probe.url@);
        assert(is_answer_to(
            probe.url@,
            probe.method@,
            probe.transport,
            transport,
            renderer,
            answer,
        ));
    }
    match answer {
        Ok(response) => Some(response),
        Err(_) => None,
    }
}

/// The plan that the scan holds for the site at place `i`.
spec fn plan_of<'a, S: Site + ?Sized>(scan: Scan<'a, S>, i: int) -> Plan {
    Plan { url: scan.url_of(i), method: scan.method_of(i), rendering: scan.rendering_of(i) }
}

/// Sends the probes of the first pass, one after the other, and hands each
/// outcome to the scan. Gives the outcomes, in the order of the sites.
fn run_first_pass<'a, S: Site + ?Sized, P: Request + ?Sized, V: Request + ?Sized>(
    scan: &mut Scan<'a, S>,
    probes: &Vec<Probe>,
    transport: &P,
    renderer: &V,
) -> (first: Ghost<Seq<Option<ResultView>>>)
    requires
        old(scan).wf(),
        old(scan).current() is Pass1Collect,
        old(scan).sites().len() > 0,
        old(scan).results().len() == 0,
        old(scan).are_due(probes@, RequestType::Http),
        probes@.len() == old(scan).sites().len(),
        forall|k: int| 0 <= k < probes@.len() ==> (#[trigger] probes@[k]).site == k,
        forall|i: int| 0 <= i < old(scan).sites().len() ==> old(scan).awaits(i),
        forall|i: int| old(scan).awaits(i) ==> 0 <= i < old(scan).sites().len(),
    ensures
        final(scan).wf(),
        final(scan).same_scan(old(scan)),
        forall|i: int| !final(scan).awaits(i),
        final(scan).current() == (if old(scan).verifies() {
            ScanPhase::Pass2Dispatch
        } else {
            ScanPhase::Done
        }),
        first@.len() == old(scan).sites().len(),
        forall|i: int|
            0 <= i < old(scan).sites().len() ==> is_first_outcome(
                #[trigger] old(scan).sites()[i],
                old(scan).username(),
                plan_of(*old(scan), i),
                transport,
                renderer,
                first@[i],
            ),
        final(scan).results() == collected(first@),
{
    let ghost mut first: Seq<Option<ResultView>> = Seq::empty();
    let ghost start = *scan;
    proof {
        assert(scan.results() =~= collected(first));
    }
    let mut at: usize = 0;
    while at < probes.len()
        invariant
            at <= probes@.len(),
            probes@.len() == start.sites().len(),
            start.sites().len() > 0,
            start.current() is Pass1Collect,
            forall|k: int| 0 <= k < probes@.len() ==> (#[trigger] probes@[k]).site == k,
            forall|k: int|
                0 <= k < probes@.len() ==> {
                    &&& (#[trigger] probes@[k]).url@ == start.url_of(k)
                    &&& probes@[k].method@ == start.method_of(k)
                    &&& probes@[k].transport == RequestType::Http
                },
            scan.wf(),
            scan.same_scan(&start),
            forall|i: int| scan.awaits(i) <==> at <= i < probes@.len(),
            scan.current() == (if at < probes@.len() {
                ScanPhase::Pass1Collect
            } else if start.verifies() {
                ScanPhase::Pass2Dispatch
            } else {
                ScanPhase::Done
            }),
            first.len() == at,
            forall|i: int|
                0 <= i < at ==> is_first_outcome(
                    #[trigger] start.sites()[i],
                    start.username(),
                    plan_of(start, i),
                    transport,
                    renderer,
                    first[i],
                ),
            scan.results() == collected(first),
        decreases probes@.len() - at,
    {
        let ghost before = *scan;
        let outcome = send(&probes[at], transport, renderer);
        let ghost sent = outcome;
        let taken = scan.collect(at, outcome);
        proof {
            assert(taken);
            let answer = choose|answer: Result<RequestResponse, SleuthError>| #[trigger]
                is_answer_to(
                    probes@[at as int].url@,
                    probes@[at as int].method@,
                    probes@[at as int].transport,
                    transport,
                    renderer,
                    answer,
                ) && sent == (match answer {
                    Ok(response) => Some(response),
                    Err(_) => None,
                });
            let plan = plan_of(start, at as int);
            assert(is_answer_to(
                plan.url,
                plan.method,
                RequestType::Http,
                transport,
                renderer,
                answer,
            ));
            let entry: Option<ResultView> = match sent {
                Some(_) => Some(scan.results().last()),
                None => None,
            };
            if sent is Some {
                let result = choose|result: ResultView|
                    {
                        &&& #[trigger] is_first_pass_result(
                            before.sites()[at as int],
                            before.username(),
                            before.url_of(at as int),
                            before.rendering_of(at as int),
                            sent->0.status_code,
                            sent->0.body_text(),
                            result,
                        )
                        &&& scan.results() == before.results().push(result)
                    };
                assert(scan.results().last() == result);
                assert(entry == Some(result));
            }
            assert(is_first_outcome(
                start.sites()[at as int],
                start.username(),
                plan,
                transport,
                renderer,
                entry,
            ));
            let longer = first.push(entry);
            assert(longer.drop_last() =~= first);
            assert(scan.results() == collected(longer));
            assert forall|i: int| 0 <= i < at + 1 implies is_first_outcome(
                #[trigger] start.sites()[i],
                start.username(),
                plan_of(start, i),
                transport,
                renderer,
                longer[i],
            ) by {
                if i < at {
                    assert(longer[i] == first[i]);
                }
            }
            first = longer;
            if at + 1 < probes@.len() {
                assert(before.awaits(at + 1));
            }
        }
        at += 1;
    }
    Ghost(first)
}

/// Sends the probes of the second pass, one after the other, and hands each
/// outcome to the scan. Gives the outcomes, in the order of the sites; a
/// site without a probe has none.
fn run_second_pass<'a, S: Site + ?Sized, P: Request + ?Sized, V: Request + ?Sized>(
    scan: &mut Scan<'a, S>,
    probes: &Vec<Probe>,
    transport: &P,
    renderer: &V,
) -> (second: Ghost<Seq<Option<ResultView>>>)
    requires
        old(scan).wf(),
        old(scan).current() is Pass2Collect || old(scan).current() is Done,
        old(scan).are_due(probes@, RequestType::Browser),
        forall|i: int| old(scan).awaits(i) ==> 0 <= i < old(scan).sites().len(),
    ensures
        final(scan).wf(),
        final(scan).same_scan(old(scan)),
        forall|i: int| !final(scan).awaits(i),
        final(scan).current() is Done,
        second@.len() == old(scan).sites().len(),
        forall|i: int|
            0 <= i < old(scan).sites().len() ==> is_second_outcome(
                #[trigger] old(scan).sites()[i],
                old(scan).username(),
                plan_of(*old(scan), i),
                transport,
                renderer,
                old(scan).awaits(i),
                second@[i],
            ),
        final(scan).results() == merged(old(scan).results(), second@),
{
    let ghost start = *scan;
    let ghost count = start.sites().len() as int;
    let ghost mut second: Seq<Option<ResultView>> = Seq::new(
        start.sites().len(),
        |i: int| None::<ResultView>,
    );
    proof {
        start.lemma_results_match_sites();
        lemma_merged_skips_none(start.results(), second, 0);
        assert(second.take(0) =~= Seq::<Option<ResultView>>::empty());
    }
    let mut at: usize = 0;
    while at < probes.len()
        invariant
            at <= probes@.len(),
            start.wf(),
            start.current() is Pass2Collect || start.current() is Done,
            start.are_due(probes@, RequestType::Browser),
            forall|i: int| start.awaits(i) ==> 0 <= i < start.sites().len(),
            count == start.sites().len(),
            scan.wf(),
            scan.same_scan(&start),
            forall|i: int|
                scan.awaits(i) <==> exists|k: int|
                    at <= k < probes@.len() && (#[trigger] probes@[k]).site == i,
            scan.current() == (if exists|i: int| scan.awaits(i) {
                ScanPhase::Pass2Collect
            } else {
                ScanPhase::Done
            }),
            second.len() == count,
            forall|i: int|
                0 <= i < count && (at < probes@.len() ==> i < probes@[at as int].site)
                    ==> is_second_outcome(
                    #[trigger] start.sites()[i],
                    start.username(),
                    plan_of(start, i),
                    transport,
                    renderer,
                    start.awaits(i),
                    second[i],
                ),
            forall|i: int|
                0 <= i < count && at < probes@.len() && probes@[at as int].site <= i
                    ==> second[i] is None,
            scan.results() == merged(start.results(), second),
        decreases probes@.len() - at,
    {
        let ghost before = *scan;
        let outcome = send(&probes[at], transport, renderer);
        let ghost sent = outcome;
        let site = probes[at].site;
        proof {
            assert(scan.awaits(site as int));
            assert(start.awaits(site as int));
        }
        let taken = scan.collect(site, outcome);
        proof {
            assert(taken);
            let answer = choose|answer: Result<RequestResponse, SleuthError>| #[trigger]
                is_answer_to(
                    probes@[at as int].url@,
                    probes@[at as int].method@,
                    probes@[at as int].transport,
                    transport,
                    renderer,
                    answer,
                ) && sent == (match answer {
                    Ok(response) => Some(response),
                    Err(_) => None,
                });
            let plan = plan_of(start, site as int);
            assert(is_answer_to(
                plan.url,
                plan.method,
                RequestType::Browser,
                transport,
                renderer,
                answer,
            ));
            let ghost_entry: Option<ResultView> = match sent {
                Some(_) => Some(
                    choose|result: ResultView|
                        {
                            &&& #[trigger] is_second_pass_result(
                                before.sites()[site as int],
                                before.username(),
                                before.url_of(site as int),
                                sent->0.status_code,
                                sent->0.body_text(),
                                result,
                            )
                            &&& scan.results() == replaced_by_site(before.results(), result)
                        },
                ),
                None => None,
            };
            assert(is_second_outcome(
                start.sites()[site as int],
                start.username(),
                plan,
                transport,
                renderer,
                true,
                ghost_entry,
            ));
            let updated = second.update(site as int, ghost_entry);
            // What the pass leaves: the outcomes behind this site hold nothing yet.
            lemma_merged_skips_none(start.results(), second, site as int);
            lemma_merged_skips_none(start.results(), updated, site + 1);
            assert(updated.take(site + 1).drop_last() =~= second.take(site as int));
            assert(updated.take(site + 1).last() == ghost_entry);
            assert(scan.results() == merged(start.results(), updated));
            assert forall|i: int|
                0 <= i < count && (at + 1 < probes@.len() ==> i < probes@[at + 1].site)
                    implies is_second_outcome(
                #[trigger] start.sites()[i],
                start.username(),
                plan_of(start, i),
                transport,
                renderer,
                start.awaits(i),
                updated[i],
            ) by {
                if i < site {
                    assert(updated[i] == second[i]);
                } else if i == site {
                } else {
                    assert(updated[i] is None);
                    if start.awaits(i) {
                        let k = choose|k: int|
                            0 <= k < probes@.len() && (#[trigger] probes@[k]).site == i;
                        if k <= at {
                            if k < at {
                                assert(probes@[k].site < probes@[at as int].site);
                            }
                        } else if at + 1 < k {
                            assert(probes@[at + 1].site < probes@[k].site);
                        }
                    }
                }
            }
            assert forall|i: int| scan.awaits(i) <==> exists|k: int|
                at + 1 <= k < probes@.len() && (#[trigger] probes@[k]).site == i by {
                if scan.awaits(i) {
                    let k = choose|k: int|
                        at <= k < probes@.len() && (#[trigger] probes@[k]).site == i;
                    assert(k != at);
                }
                if exists|k: int| at + 1 <= k < probes@.len() && (#[trigger] probes@[k]).site == i {
                    let k = choose|k: int|
                        at + 1 <= k < probes@.len() && (#[trigger] probes@[k]).site == i;
                    assert(probes@[at as int].site < probes@[k].site);
                    assert(before.awaits(i));
                }
            }
            if at + 1 < probes@.len() {
                assert(probes@[at as int].site < probes@[at + 1].site);
                assert(scan.awaits(probes@[at + 1].site as int));
            }
            second = updated;
        }
        at += 1;
    }
    proof {
        assert forall|i: int| 0 <= i < count implies is_second_outcome(
            #[trigger] start.sites()[i],
            start.username(),
            plan_of(start, i),
            transport,
            renderer,
            start.awaits(i),
            second[i],
        ) by {}
    }
    Ghost(second)
}

/// Scans a username over the sites, one probe after the other.
///
/// The first pass probes every site with `transport` and the method that the
/// site asks for. With `verify`, a second pass probes again, with `renderer`,
/// the sites that need a browser and on which the first pass found the
/// username, and each result of it replaces the first result for its site.
/// A site whose probe fails has no result from that pass.
pub fn scan_sites<'a, S: Site + ?Sized, P: Request + ?Sized, V: Request + ?Sized>(
    username: &str,
    sites: Vec<&'a S>,
    transport: &P,
    renderer: &V,
    verify: bool,
) -> (r: Vec<SearchResult>)
    ensures
        is_scan_of(sites@, username@, transport, renderer, verify, views(r@)),
        names_come_from(views(r@), sites@),
        names_differ(sites@) ==> sites_differ(views(r@)),
        forall|k: int| 0 <= k < r@.len() ==> (#[trigger] views(r@)[k]).username == username@,
        sites@.len() == 0 ==> r@.len() == 0,
{
    let count = sites.len();
    let mut scan = Scan::new(username, sites, verify);
    let ghost start = scan;
    let ghost plans = Seq::new(sites@.len(), |i: int| plan_of(start, i));
    let first_probes = scan.dispatch();
    if count == 0 {
        proof {
            scan.lemma_results_match_sites();
            let none = Seq::<Option<ResultView>>::empty();
            assert(scan.results() =~= Seq::<ResultView>::empty());
            assert(collected(none) =~= Seq::<ResultView>::empty());
            assert(merged(collected(none), none) == collected(none));
            assert(is_scan_by(
                sites@,
                username@,
                transport,
                renderer,
                verify,
                plans,
                none,
                none,
                scan.results(),
            ));
        }
        return scan.into_results();
    }
    let Ghost(first) = run_first_pass(&mut scan, &first_probes, transport, renderer);
    let ghost between = scan;
    let second_probes = scan.dispatch();
    let ghost due = scan;
    proof {
        if !(between.current() is Pass2Dispatch) {
            assert forall|i: int| !scan.awaits(i) by {
                assert(scan.awaits(i) == between.awaits(i));
            }
            assert(scan.are_due(second_probes@, RequestType::Browser));
        }
    }
    let Ghost(second) = run_second_pass(&mut scan, &second_probes, transport, renderer);
    proof {
        scan.lemma_results_match_sites();
        assert forall|i: int| 0 <= i < sites@.len() implies is_second_outcome(
            #[trigger] sites@[i],
            username@,
            plans[i],
            transport,
            renderer,
            verify && needs_verification(collected(first), sites@[i].name_spec(), plans[i].rendering),
            second[i],
        ) by {
            assert(plan_of(due, i) == plans[i]);
            assert(is_second_outcome(
                due.sites()[i],
                due.username(),
                plan_of(due, i),
                transport,
                renderer,
                due.awaits(i),
                second[i],
            ));
        }
        assert forall|i: int| 0 <= i < sites@.len() implies is_first_outcome(
            #[trigger] sites@[i],
            username@,
            plans[i],
            transport,
            renderer,
            first[i],
        ) by {
            assert(plan_of(start, i) == plans[i]);
        }
        assert(is_scan_by(
            sites@,
            username@,
            transport,
            renderer,
            verify,
            plans,
            first,
            second,
            scan.results(),
        ));
    }
    scan.into_results()
}

/// Scans a username over the sites, as `scan_sites` does. Probe failures are
/// never reported as an error of the scan.
pub fn scan_username<S: Site + ?Sized, P: Request + ?Sized, V: Request + ?Sized>(
    username: &str,
    sites: Vec<Arc<S>>,
    transport: &P,
    renderer: &V,
    verify: bool,
) -> (r: Result<Vec<SearchResult>, SleuthError>)
    ensures
        r matches Ok(results) && {
            &&& is_scan_of(
                borrowed(sites@),
                username@,
                transport,
                renderer,
                verify,
                views(results@),
            )
            &&& names_come_from(views(results@), borrowed(sites@))
            &&& names_differ(borrowed(sites@)) ==> sites_differ(views(results@))
            &&& forall|k: int|
                0 <= k < results@.len() ==> (#[trigger] views(results@)[k]).username == username@
            &&& sites@.len() == 0 ==> results@.len() == 0
        },
{
    let mut refs: Vec<&S> = Vec::with_capacity(sites.len());
    let mut i: usize = 0;
    while i < sites.len()
        invariant
            i <= sites@.len(),
            refs@.len() == i,
            forall|k: int| 0 <= k < i ==> refs@[k] == &*sites@[k],
        decreases sites@.len() - i,
    {
        refs.push(&*sites[i]);
        i += 1;
    }
    proof {
        assert(refs@ =~= borrowed(sites@));
    }
    Ok(scan_sites(username, refs, transport, renderer, verify))
}

} // verus!
