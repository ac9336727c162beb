//! The two-pass scan as a state machine.
//!
//! A scan sends no request itself. It says which probes are due, takes the
//! outcome of each, and keeps the results. Whoever drives it sends the probes
//! of one pass in any order, or all at once, and hands the outcomes back in
//! the order in which they arrive. A pass is over when the outcome of every
//! probe of the pass is in.

use crate::request::trait_impl::{parse_method, Method, RequestResponse};
use crate::request::RequestType;
use crate::scan::probe::{
    apply_verification,
    found_on,
    lemma_checked_result_stands,
    lemma_replaced_keeps_sites,
    check_first_pass,
    check_second_pass,
    is_first_for,
    is_first_pass_result,
    is_found_on,
    is_second_pass_result,
    needs_verification,
    replaced_by_site,
    views,
};
use crate::scan::result::{ResultView, SearchResult};
use crate::sites::site::{asks_for, builds, renders, Site};
use crate::utils::error::SleuthError;
use crate::utils::text::same_text;
use vstd::prelude::*;

verus! {

/// Where a scan stands.
#[derive(Debug, Clone, Copy, PartialEq, Eq, Structural)]
pub enum ScanPhase {
    /// The probes of the first pass are due.
    Pass1Dispatch,
    /// Outcomes of the first pass are awaited.
    Pass1Collect,
    /// The first pass is over; the probes of the second pass are due.
    Pass2Dispatch,
    /// Outcomes of the second pass are awaited.
    Pass2Collect,
    /// The scan is over.
    Done,
}

/// One request that is due.
#[derive(Debug)]
pub struct Probe {
    /// The place of the site in the list of the scan.
    pub site: usize,
    /// The address to request.
    pub url: String,
    /// The request method that the site asks for.
    pub method: &'static str,
    /// The transport to send the request with.
    pub transport: RequestType,
}

/// The method that a probe is sent with. The plain transport sends GET when
/// the site asks for exactly that, and HEAD otherwise. The browser takes the
/// method that the site names, case aside, and no other than HEAD and GET.
pub open spec fn probe_method(method: Seq<char>, transport: RequestType) -> Option<Method> {
    if transport == RequestType::Browser {
        crate::request::trait_impl::method_named(method)
    } else if method == "GET"@ {
        Some(Method::Get)
    } else {
        Some(Method::Head)
    }
}

impl Probe {
    /// The method to send the probe with, or the refusal of the method that
    /// the site names.
    pub fn request_method(&self) -> (r: Result<Method, SleuthError>)
        ensures
            match probe_method(self.method@, self.transport) {
                Some(m) => r == Ok::<Method, SleuthError>(m),
                None => r matches Err(SleuthError::UnsupportedMethod(word)) && word@
                    == self.method@,
            },
    {
        match self.transport {
            RequestType::Browser => parse_method(self.method),
            _ => if same_text(self.method, "GET") {
                Ok(Method::Get)
            } else {
                Ok(Method::Head)
            },
        }
    }
}

/// No two sites of the list have the same name.
pub open spec fn names_differ<'a, S: Site + ?Sized>(sites: Seq<&'a S>) -> bool {
    forall|i: int, j: int|
        0 <= i < j < sites.len() ==> (#[trigger] sites[i]).name_spec() != (
        #[trigger] sites[j]).name_spec()
}

/// No two results are for the same site.
pub open spec fn sites_differ(results: Seq<ResultView>) -> bool {
    forall|a: int, b: int|
        0 <= a < b < results.len() ==> (#[trigger] results[a]).site != (#[trigger] results[b]).site
}

/// Every result is for a site of the list.
pub open spec fn names_come_from<'a, S: Site + ?Sized>(
    results: Seq<ResultView>,
    sites: Seq<&'a S>,
) -> bool {
    forall|k: int|
        0 <= k < results.len() ==> exists|j: int|
            0 <= j < sites.len() && (#[trigger] results[k]).site == (#[trigger] sites[j]).name_spec()
}

/// The address, the method and the flag are what the site gave when it was
/// asked for them.
pub open spec fn is_plan_of<S: Site + ?Sized>(
    site: &S,
    username: Seq<char>,
    url: Seq<char>,
    method: Seq<char>,
    rendering: bool,
) -> bool {
    builds(site, username, url) && asks_for(site, method) && renders(site, rendering)
}

/// Every result is for the username and for a site of the list; with
/// `answered_only`, for a site whose outcome is no longer awaited.
spec fn results_fit<'a, S: Site + ?Sized>(
    results: Seq<ResultView>,
    sites: Seq<&'a S>,
    username: Seq<char>,
    awaited: Seq<bool>,
    answered_only: bool,
) -> bool {
    forall|k: int|
        0 <= k < results.len() ==> {
            &&& (#[trigger] results[k]).username == username
            &&& exists|j: int|
                {
                    &&& 0 <= j < sites.len()
                    &&& results[k].site == (#[trigger] sites[j]).name_spec()
                    &&& answered_only ==> !awaited[j]
                }
        }
}

/// Results that fit keep fitting when fewer outcomes are awaited, or when
/// it no longer matters which are.
proof fn lemma_fit_weaken<'a, S: Site + ?Sized>(
    results: Seq<ResultView>,
    sites: Seq<&'a S>,
    username: Seq<char>,
    awaited: Seq<bool>,
    fewer: Seq<bool>,
    answered_only: bool,
    still: bool,
)
    requires
        results_fit(results, sites, username, awaited, answered_only),
        awaited.len() == sites.len(),
        fewer.len() == sites.len(),
        still ==> answered_only && forall|j: int| 0 <= j < sites.len() && fewer[j] ==> awaited[j],
    ensures
        results_fit(results, sites, username, fewer, still),
{
    assert forall|k: int| 0 <= k < results.len() implies {
        &&& (#[trigger] results[k]).username == username
        &&& exists|j: int|
            {
                &&& 0 <= j < sites.len()
                &&& results[k].site == (#[trigger] sites[j]).name_spec()
                &&& still ==> !fewer[j]
            }
    } by {
        let j = choose|j: int|
            {
                &&& 0 <= j < sites.len()
                &&& results[k].site == (#[trigger] sites[j]).name_spec()
                &&& answered_only ==> !awaited[j]
            };
        assert(results[k].site == sites[j].name_spec());
    }
}

/// The result of a site whose outcome was awaited can join the results of
/// the sites that have answered.
proof fn lemma_fit_push<'a, S: Site + ?Sized>(
    results: Seq<ResultView>,
    sites: Seq<&'a S>,
    username: Seq<char>,
    awaited: Seq<bool>,
    site: int,
    result: ResultView,
)
    requires
        results_fit(results, sites, username, awaited, true),
        names_differ(sites) ==> sites_differ(results),
        awaited.len() == sites.len(),
        0 <= site < sites.len(),
        awaited[site],
        result.site == sites[site].name_spec(),
        result.username == username,
    ensures
        results_fit(results.push(result), sites, username, awaited.update(site, false), true),
        names_differ(sites) ==> sites_differ(results.push(result)),
{
    let after = results.push(result);
    let fewer = awaited.update(site, false);
    assert forall|k: int| 0 <= k < after.len() implies {
        &&& (#[trigger] after[k]).username == username
        &&& exists|j: int|
            {
                &&& 0 <= j < sites.len()
                &&& after[k].site == (#[trigger] sites[j]).name_spec()
                &&& true ==> !fewer[j]
            }
    } by {
        if k < results.len() {
            assert(after[k] == results[k]);
            let j = choose|j: int|
                {
                    &&& 0 <= j < sites.len()
                    &&& results[k].site == (#[trigger] sites[j]).name_spec()
                    &&& true ==> !awaited[j]
                };
            assert(after[k].site == sites[j].name_spec() && !fewer[j]);
        } else {
            assert(after[k].site == sites[site].name_spec() && !fewer[site]);
        }
    }
    if names_differ(sites) {
        assert forall|a: int, b: int| 0 <= a < b < after.len() implies (#[trigger] after[a]).site
            != (#[trigger] after[b]).site by {
            if b < results.len() {
                assert(results[a].site != results[b].site);
            } else {
                let j = choose|j: int|
                    {
                        &&& 0 <= j < sites.len()
                        &&& results[a].site == (#[trigger] sites[j]).name_spec()
                        &&& true ==> !awaited[j]
                    };
                if j < site {
                    assert(sites[j].name_spec() != sites[site].name_spec());
                } else {
                    assert(sites[site].name_spec() != sites[j].name_spec());
                }
            }
        }
    }
}

/// A checked result for the username can replace the first result for its
/// site.
proof fn lemma_fit_replace<'a, S: Site + ?Sized>(
    results: Seq<ResultView>,
    sites: Seq<&'a S>,
    username: Seq<char>,
    awaited: Seq<bool>,
    checked: ResultView,
)
    requires
        results_fit(results, sites, username, awaited, false),
        names_differ(sites) ==> sites_differ(results),
        checked.username == username,
    ensures
        results_fit(replaced_by_site(results, checked), sites, username, awaited, false),
        names_differ(sites) ==> sites_differ(replaced_by_site(results, checked)),
{
    let after = replaced_by_site(results, checked);
    lemma_replaced_keeps_sites(results, checked);
    assert forall|k: int| 0 <= k < after.len() implies {
        &&& (#[trigger] after[k]).username == username
        &&& exists|j: int|
            {
                &&& 0 <= j < sites.len()
                &&& after[k].site == (#[trigger] sites[j]).name_spec()
                &&& false ==> !awaited[j]
            }
    } by {
        assert(results[k].username == username);
        let j = choose|j: int|
            {
                &&& 0 <= j < sites.len()
                &&& results[k].site == (#[trigger] sites[j]).name_spec()
                &&& false ==> !awaited[j]
            };
        assert(after[k].site == sites[j].name_spec());
    }
    if names_differ(sites) {
        assert forall|a: int, b: int| 0 <= a < b < after.len() implies (#[trigger] after[a]).site
            != (#[trigger] after[b]).site by {
            assert(results[a].site != results[b].site);
        }
    }
}

/// `result` is what a pass of the scan makes of some response of the site:
/// a result of the first pass or, where a second pass is run, of the second.
pub open spec fn is_result_of<'a, S: Site + ?Sized>(
    site: &'a S,
    username: Seq<char>,
    url: Seq<char>,
    rendering: bool,
    verify: bool,
    result: ResultView,
) -> bool {
    exists|status: u16, body: Option<Seq<char>>|
        #![trigger is_first_pass_result(site, username, url, rendering, status, body, result)]
        #![trigger is_second_pass_result(site, username, url, status, body, result)]
        is_first_pass_result(site, username, url, rendering, status, body, result) || (verify
            && is_second_pass_result(site, username, url, status, body, result))
}

/// `result` is what a pass of the scan makes of some response of a site of
/// the list, with the address and the flag that the scan holds for the site.
spec fn is_read<'a, S: Site + ?Sized>(
    result: ResultView,
    sites: Seq<&'a S>,
    username: Seq<char>,
    urls: Seq<String>,
    rendering: Seq<bool>,
    verify: bool,
) -> bool {
    exists|j: int|
        0 <= j < sites.len() && #[trigger] is_result_of(
            sites[j],
            username,
            urls[j]@,
            rendering[j],
            verify,
            result,
        )
}

/// Every result is read from a response of a site of the list.
spec fn results_read<'a, S: Site + ?Sized>(
    results: Seq<ResultView>,
    sites: Seq<&'a S>,
    username: Seq<char>,
    urls: Seq<String>,
    rendering: Seq<bool>,
    verify: bool,
) -> bool {
    forall|k: int|
        0 <= k < results.len() ==> is_read(
            #[trigger] results[k],
            sites,
            username,
            urls,
            rendering,
            verify,
        )
}

/// A result of the first pass can join results that are read.
proof fn lemma_read_push<'a, S: Site + ?Sized>(
    results: Seq<ResultView>,
    sites: Seq<&'a S>,
    username: Seq<char>,
    urls: Seq<String>,
    rendering: Seq<bool>,
    verify: bool,
    site: int,
    status: u16,
    body: Option<Seq<char>>,
    result: ResultView,
)
    requires
        results_read(results, sites, username, urls, rendering, verify),
        0 <= site < sites.len(),
        is_first_pass_result(
            sites[site],
            username,
            urls[site]@,
            rendering[site],
            status,
            body,
            result,
        ),
    ensures
        results_read(results.push(result), sites, username, urls, rendering, verify),
{
    let after = results.push(result);
    assert forall|k: int| 0 <= k < after.len() implies is_read(
        #[trigger] after[k],
        sites,
        username,
        urls,
        rendering,
        verify,
    ) by {
        if k < results.len() {
            assert(after[k] == results[k]);
        } else {
            assert(is_result_of(
                sites[site],
                username,
                urls[site]@,
                rendering[site],
                verify,
                after[k],
            ));
        }
    }
}

/// A result of the second pass can replace one of results that are read.
proof fn lemma_read_replace<'a, S: Site + ?Sized>(
    results: Seq<ResultView>,
    sites: Seq<&'a S>,
    username: Seq<char>,
    urls: Seq<String>,
    rendering: Seq<bool>,
    site: int,
    status: u16,
    body: Option<Seq<char>>,
    checked: ResultView,
)
    requires
        results_read(results, sites, username, urls, rendering, true),
        0 <= site < sites.len(),
        is_second_pass_result(sites[site], username, urls[site]@, status, body, checked),
    ensures
        results_read(replaced_by_site(results, checked), sites, username, urls, rendering, true),
{
    let after = replaced_by_site(results, checked);
    lemma_replaced_keeps_sites(results, checked);
    assert forall|k: int| 0 <= k < after.len() implies is_read(
        #[trigger] after[k],
        sites,
        username,
        urls,
        rendering,
        true,
    ) by {
        if after[k] == results[k] {
            assert(is_read(results[k], sites, username, urls, rendering, true));
        } else {
            assert(after[k] == checked);
            assert(is_result_of(
                sites[site],
                username,
                urls[site]@,
                rendering[site],
                true,
                after[k],
            ));
        }
    }
}

/// One scan of a username over a list of sites.
pub struct Scan<'a, S: Site + ?Sized> {
    username: String,
    sites: Vec<&'a S>,
    urls: Vec<String>,
    methods: Vec<&'static str>,
    rendering: Vec<bool>,
    verify: bool,
    phase: ScanPhase,
    awaited: Vec<bool>,
    results: Vec<SearchResult>,
}

impl<'a, S: Site + ?Sized> Scan<'a, S> {
    /// The username that is looked up.
    pub closed spec fn username(&self) -> Seq<char> {
        self.username@
    }

    /// The sites that are probed, in the order in which they were given.
    pub closed spec fn sites(&self) -> Seq<&'a S> {
        self.sites@
    }

    /// Whether a second pass was asked for.
    pub closed spec fn verifies(&self) -> bool {
        self.verify
    }

    /// Where the scan stands.
    pub closed spec fn current(&self) -> ScanPhase {
        self.phase
    }

    /// The address that is probed for the site at place `i`.
    pub closed spec fn url_of(&self, i: int) -> Seq<char> {
        self.urls@[i]@
    }

    /// The request method that the site at place `i` asked for.
    pub closed spec fn method_of(&self, i: int) -> Seq<char> {
        self.methods@[i]@
    }

    /// Whether the site at place `i` said that it needs a browser.
    pub closed spec fn rendering_of(&self, i: int) -> bool {
        self.rendering@[i]
    }

    /// Whether the outcome of a probe of the site at place `i` is awaited.
    pub closed spec fn awaits(&self, i: int) -> bool {
        0 <= i < self.awaited@.len() && self.awaited@[i]
    }

    /// The results so far.
    pub closed spec fn results(&self) -> Seq<ResultView> {
        views(self.results@)
    }

    /// Whether the result is what a pass of this scan makes of some response
    /// of one of its sites.
    pub open spec fn reads(&self, result: ResultView) -> bool {
        exists|j: int|
            0 <= j < self.sites().len() && #[trigger] is_result_of(
                self.sites()[j],
                self.username(),
                self.url_of(j),
                self.rendering_of(j),
                self.verifies(),
                result,
            )
    }

    /// Whether any outcome is awaited.
    pub open spec fn awaits_any(&self) -> bool {
        exists|i: int| self.awaits(i)
    }

    /// Whether two states are of the same scan: same username, sites,
    /// addresses, methods and flags.
    pub open spec fn same_scan(&self, other: &Scan<'a, S>) -> bool {
        &&& self.username() == other.username()
        &&& self.sites() == other.sites()
        &&& self.verifies() == other.verifies()
        &&& forall|i: int|
            0 <= i < self.sites().len() ==> {
                &&& #[trigger] self.url_of(i) == other.url_of(i)
                &&& self.method_of(i) == other.method_of(i)
                &&& self.rendering_of(i) == other.rendering_of(i)
            }
    }

    /// The invariant of a scan.
    pub closed spec fn wf(&self) -> bool {
        let n = self.sites@.len();
        &&& self.urls@.len() == n
        &&& self.methods@.len() == n
        &&& self.rendering@.len() == n
        &&& self.awaited@.len() == n
        &&& (self.phase is Pass1Dispatch || self.phase is Pass2Dispatch || self.phase is Done)
            ==> forall|i: int| 0 <= i < n ==> !self.awaited@[i]
        &&& (self.phase is Pass1Collect || self.phase is Pass2Collect) ==> exists|i: int|
            0 <= i < n && self.awaited@[i]
        &&& self.phase is Pass1Dispatch ==> self.results@.len() == 0
        &&& (self.phase is Pass2Dispatch || self.phase is Pass2Collect) ==> self.verify
        &&& self.phase is Pass2Collect ==> forall|i: int|
            0 <= i < n && self.awaited@[i] ==> self.rendering@[i]
        &&& results_fit(
            views(self.results@),
            self.sites@,
            self.username@,
            self.awaited@,
            self.phase is Pass1Collect,
        )
        &&& names_differ(self.sites@) ==> sites_differ(views(self.results@))
        &&& results_read(
            views(self.results@),
            self.sites@,
            self.username@,
            self.urls@,
            self.rendering@,
            self.verify,
        )
    }

    /// The results so far are for sites of the list and for the username of
    /// the scan; where no two sites share a name, no two results are for the
    /// same site.
    pub proof fn lemma_results_match_sites(&self)
        requires
            self.wf(),
        ensures
            names_come_from(self.results(), self.sites()),
            names_differ(self.sites()) ==> sites_differ(self.results()),
            forall|k: int|
                0 <= k < self.results().len() ==> (#[trigger] self.results()[k]).username
                    == self.username(),
            self.current() is Pass1Dispatch ==> self.results().len() == 0,
            (self.current() is Pass1Collect || self.current() is Pass2Collect)
                <==> self.awaits_any(),
            (self.current() is Pass2Dispatch || self.current() is Pass2Collect)
                ==> self.verifies(),
            self.current() is Pass2Collect ==> forall|i: int|
                self.awaits(i) ==> self.rendering_of(i),
            forall|i: int| self.awaits(i) ==> 0 <= i < self.sites().len(),
            forall|k: int|
                0 <= k < self.results().len() ==> self.reads(#[trigger] self.results()[k]),
    {
        assert forall|k: int| 0 <= k < self.results().len() implies self.reads(
            #[trigger] self.results()[k],
        ) by {
            assert(is_read(
                views(self.results@)[k],
                self.sites@,
                self.username@,
                self.urls@,
                self.rendering@,
                self.verify,
            ));
            let j = choose|j: int|
                0 <= j < self.sites@.len() && #[trigger] is_result_of(
                    self.sites@[j],
                    self.username@,
                    self.urls@[j]@,
                    self.rendering@[j],
                    self.verify,
                    views(self.results@)[k],
                );
            assert(is_result_of(
                self.sites()[j],
                self.username(),
                self.url_of(j),
                self.rendering_of(j),
                self.verifies(),
                self.results()[k],
            ));
        }
        assert forall|k: int| 0 <= k < self.results().len() implies exists|j: int|
            0 <= j < self.sites().len() && (#[trigger] self.results()[k]).site == (
            #[trigger] self.sites()[j]).name_spec() by {
            let j = choose|j: int|
                {
                    &&& 0 <= j < self.sites@.len()
                    &&& views(self.results@)[k].site == (#[trigger] self.sites@[j]).name_spec()
                    &&& self.phase is Pass1Collect ==> !self.awaited@[j]
                };
            assert(self.results()[k].site == self.sites()[j].name_spec());
        }
        if self.current() is Pass1Collect || self.current() is Pass2Collect {
            let i = choose|i: int| 0 <= i < self.sites@.len() && self.awaited@[i];
            assert(self.awaits(i));
        }
    }

    /// A scan that has not begun. Every site is asked once for the address
    /// to probe, for its request method and for its need of a browser.
    pub fn new(username: &str, sites: Vec<&'a S>, verify: bool) -> (r: Scan<'a, S>)
        ensures
            r.wf(),
            r.username() == username@,
            r.sites() == sites@,
            r.verifies() == verify,
            r.current() is Pass1Dispatch,
            r.results().len() == 0,
            forall|i: int| !r.awaits(i),
            forall|i: int|
                0 <= i < sites@.len() ==> is_plan_of(
                    #[trigger] sites@[i],
                    username@,
                    r.url_of(i),
                    r.method_of(i),
                    r.rendering_of(i),
                ),
    {
        let mut urls: Vec<String> = Vec::with_capacity(sites.len());
        let mut methods: Vec<&'static str> = Vec::with_capacity(sites.len());
        let mut rendering: Vec<bool> = Vec::with_capacity(sites.len());
        let mut awaited: Vec<bool> = Vec::with_capacity(sites.len());
        let mut i: usize = 0;
        while i < sites.len()
            invariant
                i <= sites@.len(),
                urls@.len() == i,
                methods@.len() == i,
                rendering@.len() == i,
                awaited@.len() == i,
                forall|k: int| 0 <= k < i ==> !awaited@[k],
                forall|k: int|
                    0 <= k < i ==> is_plan_of(
                        #[trigger] sites@[k],
                        username@,
                        urls@[k]@,
                        methods@[k]@,
                        rendering@[k],
                    ),
            decreases sites@.len() - i,
        {
            let site: &S = sites[i];
            let url = site.build_url(username);
            let method = site.http_method();
            let needs_browser = site.requires_browser();
            proof {
                assert(builds(site, username@, url@));
                assert(asks_for(site, method@));
                assert(renders(site, needs_browser));
            }
            urls.push(url);
            methods.push(method);
            rendering.push(needs_browser);
            awaited.push(false);
            i += 1;
        }
        let r = Scan {
            username: username.to_owned(),
            sites,
            urls,
            methods,
            rendering,
            verify,
            phase: ScanPhase::Pass1Dispatch,
            awaited,
            results: Vec::new(),
        };
        proof {
            assert(views(r.results@) =~= Seq::<ResultView>::empty());
        }
        r
    }

    /// Where the scan stands.
    pub fn phase(&self) -> (r: ScanPhase)
        ensures
            r == self.current(),
    {
        self.phase
    }

    /// Whether the scan is over.
    pub fn is_done(&self) -> (r: bool)
        ensures
            r == (self.current() is Done),
    {
        match self.phase {
            ScanPhase::Done => true,
            _ => false,
        }
    }

    /// The number of sites of the scan.
    pub fn site_count(&self) -> (r: usize)
        ensures
            r == self.sites().len(),
    {
        self.sites.len()
    }

    /// Whether the probe is the one that is due for its site, with the
    /// given transport.
    pub open spec fn is_due(&self, probe: Probe, transport: RequestType) -> bool {
        &&& self.awaits(probe.site as int)
        &&& probe.url@ == self.url_of(probe.site as int)
        &&& probe.method@ == self.method_of(probe.site as int)
        &&& probe.transport == transport
    }

    /// Whether the probes are the ones that are due: one for each site whose
    /// outcome is awaited, in the order of the sites.
    pub open spec fn are_due(&self, probes: Seq<Probe>, transport: RequestType) -> bool {
        &&& forall|k: int| 0 <= k < probes.len() ==> self.is_due(#[trigger] probes[k], transport)
        &&& forall|a: int, b: int|
            0 <= a < b < probes.len() ==> (#[trigger] probes[a]).site < (#[trigger] probes[b]).site
        &&& forall|i: int|
            self.awaits(i) ==> exists|k: int|
                0 <= k < probes.len() && (#[trigger] probes[k]).site == i
    }

    /// Where the scan stands once the outcome for the site at place `site`
    /// is in: in the same pass while other outcomes are awaited, else past
    /// the pass.
    pub open spec fn phase_after(&self, site: int) -> ScanPhase {
        if exists|i: int| i != site && self.awaits(i) {
            self.current()
        } else if self.current() is Pass1Collect && self.verifies() {
            ScanPhase::Pass2Dispatch
        } else {
            ScanPhase::Done
        }
    }

    /// Whether any outcome is awaited.
    fn any_awaited(&self) -> (r: bool)
        requires
            self.awaited@.len() == self.sites@.len(),
        ensures
            r == exists|i: int| 0 <= i < self.awaited@.len() && self.awaited@[i],
    {
        let mut i: usize = 0;
        while i < self.awaited.len()
            invariant
                i <= self.awaited@.len(),
                forall|k: int| 0 <= k < i ==> !self.awaited@[k],
            decreases self.awaited@.len() - i,
        {
            if self.awaited[i] {
                return true;
            }
            i += 1;
        }
        false
    }

    /// One probe for each site whose outcome is awaited.
    fn probes_due(&self, transport: RequestType) -> (probes: Vec<Probe>)
        requires
            self.urls@.len() == self.sites@.len(),
            self.methods@.len() == self.sites@.len(),
            self.awaited@.len() == self.sites@.len(),
        ensures
            self.are_due(probes@, transport),
            (forall|i: int| 0 <= i < self.awaited@.len() ==> self.awaited@[i]) ==> {
                &&& probes@.len() == self.sites@.len()
                &&& forall|k: int| 0 <= k < probes@.len() ==> (#[trigger] probes@[k]).site == k
            },
    {
        let mut probes: Vec<Probe> = Vec::new();
        let mut i: usize = 0;
        while i < self.awaited.len()
            invariant
                i <= self.awaited@.len(),
                (forall|j: int| 0 <= j < self.awaited@.len() ==> self.awaited@[j]) ==> {
                    &&& probes@.len() == i
                    &&& forall|k: int| 0 <= k < probes@.len() ==> (#[trigger] probes@[k]).site == k
                },
                self.urls@.len() == self.sites@.len(),
                self.methods@.len() == self.sites@.len(),
                self.awaited@.len() == self.sites@.len(),
                forall|k: int| 0 <= k < probes@.len() ==> self.is_due(#[trigger] probes@[k], transport),
                forall|k: int| 0 <= k < probes@.len() ==> (#[trigger] probes@[k]).site < i,
                forall|a: int, b: int|
                    0 <= a < b < probes@.len() ==> (#[trigger] probes@[a]).site < (
                    #[trigger] probes@[b]).site,
                forall|j: int|
                    0 <= j < i && self.awaits(j) ==> exists|k: int|
                        0 <= k < probes@.len() && (#[trigger] probes@[k]).site == j,
            decreases self.awaited@.len() - i,
        {
            if self.awaited[i] {
                let ghost before = probes@;
                let probe = Probe {
                    site: i,
                    url: self.urls[i].clone(),
                    method: self.methods[i],
                    transport,
                };
                probes.push(probe);
                proof {
                    assert(probes@[before.len() as int].site == i);
                    assert forall|j: int| 0 <= j < i + 1 && self.awaits(j) implies exists|k: int|
                        0 <= k < probes@.len() && (#[trigger] probes@[k]).site == j by {
                        if j < i {
                            let k = choose|k: int|
                                0 <= k < before.len() && (#[trigger] before[k]).site == j;
                            assert(probes@[k].site == j);
                        }
                    }
                }
            }
            i += 1;
        }
        probes
    }

    /// Opens the pass that is due and gives its probes. In the first pass
    /// every site is probed with the plain transport. In the second pass the
    /// sites that need a browser and on which the first pass found the
    /// username are probed with the browser. A pass without probes is over
    /// at once. Outside the two dispatch phases nothing happens.
    pub fn dispatch(&mut self) -> (probes: Vec<Probe>)
        requires
            old(self).wf(),
        ensures
            final(self).wf(),
            final(self).same_scan(old(self)),
            final(self).results() == old(self).results(),
            forall|i: int| final(self).awaits(i) ==> 0 <= i < old(self).sites().len(),
            match old(self).current() {
                ScanPhase::Pass1Dispatch => {
                    &&& forall|i: int|
                        0 <= i < old(self).sites().len() ==> #[trigger] final(self).awaits(i)
                    &&& final(self).are_due(probes@, RequestType::Http)
                    &&& probes@.len() == old(self).sites().len()
                    &&& forall|k: int| 0 <= k < probes@.len() ==> (#[trigger] probes@[k]).site == k
                    &&& final(self).current() == (if old(self).sites().len() > 0 {
                        ScanPhase::Pass1Collect
                    } else if old(self).verifies() {
                        ScanPhase::Pass2Dispatch
                    } else {
                        ScanPhase::Done
                    })
                },
                ScanPhase::Pass2Dispatch => {
                    &&& forall|i: int|
                        0 <= i < old(self).sites().len() ==> #[trigger] final(self).awaits(i)
                            == needs_verification(
                            old(self).results(),
                            old(self).sites()[i].name_spec(),
                            old(self).rendering_of(i),
                        )
                    &&& final(self).are_due(probes@, RequestType::Browser)
                    &&& final(self).current() == (if final(self).awaits_any() {
                        ScanPhase::Pass2Collect
                    } else {
                        ScanPhase::Done
                    })
                },
                _ => {
                    &&& probes@.len() == 0
                    &&& final(self).current() == old(self).current()
                    &&& forall|i: int| final(self).awaits(i) == old(self).awaits(i)
                },
            },
    {
        match self.phase {
            ScanPhase::Pass1Dispatch => {
                let mut i: usize = 0;
                while i < self.awaited.len()
                    invariant
                        i <= self.awaited@.len(),
                        self.awaited@.len() == old(self).awaited@.len(),
                        self.username == old(self).username,
                        self.sites == old(self).sites,
                        self.urls == old(self).urls,
                        self.methods == old(self).methods,
                        self.rendering == old(self).rendering,
                        self.verify == old(self).verify,
                        self.phase == old(self).phase,
                        self.results == old(self).results,
                        forall|k: int| 0 <= k < i ==> self.awaited@[k],
                    decreases self.awaited@.len() - i,
                {
                    self.awaited.set(i, true);
                    i += 1;
                }
                if self.sites.len() > 0 {
                    self.phase = ScanPhase::Pass1Collect;
                    proof {
                        assert(self.awaited@[0]);
                    }
                    self.probes_due(RequestType::Http)
                } else if self.verify {
                    self.phase = ScanPhase::Pass2Dispatch;
                    self.probes_due(RequestType::Http)
                } else {
                    self.phase = ScanPhase::Done;
                    self.probes_due(RequestType::Http)
                }
            },
            ScanPhase::Pass2Dispatch => {
                let mut i: usize = 0;
                while i < self.awaited.len()
                    invariant
                        i <= self.awaited@.len(),
                        old(self).wf(),
                        self.awaited@.len() == old(self).awaited@.len(),
                        self.username == old(self).username,
                        self.sites == old(self).sites,
                        self.urls == old(self).urls,
                        self.methods == old(self).methods,
                        self.rendering == old(self).rendering,
                        self.verify == old(self).verify,
                        self.phase == old(self).phase,
                        self.results == old(self).results,
                        forall|k: int|
                            0 <= k < i ==> #[trigger] self.awaited@[k] == needs_verification(
                                views(self.results@),
                                self.sites@[k].name_spec(),
                                self.rendering@[k],
                            ),
                    decreases self.awaited@.len() - i,
                {
                    let due = self.rendering[i] && is_found_on(&self.results, self.sites[i].name());
                    self.awaited.set(i, due);
                    i += 1;
                }
                if self.any_awaited() {
                    self.phase = ScanPhase::Pass2Collect;
                } else {
                    self.phase = ScanPhase::Done;
                }
                proof {
                    if self.phase is Pass2Collect {
                        let i = choose|i: int| 0 <= i < self.awaited@.len() && self.awaited@[i];
                        assert(self.awaits(i));
                    }
                    lemma_fit_weaken(
                        views(self.results@),
                        self.sites@,
                        self.username@,
                        old(self).awaited@,
                        self.awaited@,
                        false,
                        false,
                    );
                }
                self.probes_due(RequestType::Browser)
            },
            _ => Vec::new(),
        }
    }

    /// Takes the outcome of the probe of one site: the response, or `None`
    /// where the probe failed. A failed probe leaves the results as they
    /// are. In the first pass the site's reading of the response becomes a
    /// new result. In the second pass it replaces the result of the first
    /// pass for that site. The outcome that closes a pass moves the scan on.
    /// An outcome that is not awaited is refused and changes nothing.
    pub fn collect(&mut self, site: usize, response: Option<RequestResponse>) -> (taken: bool)
        requires
            old(self).wf(),
        ensures
            final(self).wf(),
            final(self).same_scan(old(self)),
            taken == old(self).awaits(site as int),
            forall|i: int| final(self).awaits(i) == (old(self).awaits(i) && i != site),
            forall|k: int|
                0 <= k < old(self).results().len() && (#[trigger] old(self).results()[k]).site
                    != old(self).sites()[site as int].name_spec() ==> final(self).results()[k]
                    == old(self).results()[k],
            taken && old(self).current() is Pass2Collect && response is Some && found_on(
                old(self).results(),
                old(self).sites()[site as int].name_spec(),
            ) ==> exists|at: int|
                {
                    &&& #[trigger] is_first_for(
                        final(self).results(),
                        old(self).sites()[site as int].name_spec(),
                        at,
                    )
                    &&& is_second_pass_result(
                        old(self).sites()[site as int],
                        old(self).username(),
                        old(self).url_of(site as int),
                        response->0.status_code,
                        response->0.body_text(),
                        final(self).results()[at],
                    )
                },
            !taken ==> {
                &&& final(self).current() == old(self).current()
                &&& final(self).results() =~= old(self).results()
            },
            taken ==> {
                &&& final(self).current() == old(self).phase_after(site as int)
                &&& match response {
                    None => final(self).results() =~= old(self).results(),
                    Some(answer) => if old(self).current() is Pass1Collect {
                        exists|result: ResultView|
                            {
                                &&& #[trigger] is_first_pass_result(
                                    old(self).sites()[site as int],
                                    old(self).username(),
                                    old(self).url_of(site as int),
                                    old(self).rendering_of(site as int),
                                    answer.status_code,
                                    answer.body_text(),
                                    result,
                                )
                                &&& final(self).results() =~= old(self).results().push(result)
                            }
                    } else {
                        exists|result: ResultView|
                            {
                                &&& #[trigger] is_second_pass_result(
                                    old(self).sites()[site as int],
                                    old(self).username(),
                                    old(self).url_of(site as int),
                                    answer.status_code,
                                    answer.body_text(),
                                    result,
                                )
                                &&& final(self).results() =~= replaced_by_site(
                                    old(self).results(),
                                    result,
                                )
                            }
                    },
                }
            },
    {
        if site >= self.awaited.len() {
            return false;
        }
        if !self.awaited[site] {
            return false;
        }
        let first_pass = match self.phase {
            ScanPhase::Pass1Collect => true,
            _ => false,
        };
        let ghost before = views(self.results@);
        let ghost fewer = self.awaited@.update(site as int, false);
        let ghost mut outcome: ResultView = arbitrary();
        self.awaited.set(site, false);
        match response {
            Some(answer) => {
                if first_pass {
                    let result = check_first_pass(
                        self.sites[site],
                        self.username.as_str(),
                        self.urls[site].as_str(),
                        self.rendering[site],
                        &answer,
                    );
                    self.results.push(result);
                    proof {
                        outcome = result@;
                        assert(views(self.results@) =~= before.push(result@));
                        assert(is_first_pass_result(
                            old(self).sites()[site as int],
                            old(self).username(),
                            old(self).url_of(site as int),
                            old(self).rendering_of(site as int),
                            answer.status_code,
                            answer.body_text(),
                            result@,
                        ));
                        lemma_fit_push(
                            before,
                            self.sites@,
                            self.username@,
                            old(self).awaited@,
                            site as int,
                            result@,
                        );
                        lemma_read_push(
                            before,
                            self.sites@,
                            self.username@,
                            self.urls@,
                            self.rendering@,
                            self.verify,
                            site as int,
                            answer.status_code,
                            answer.body_text(),
                            result@,
                        );
                    }
                } else {
                    let result = check_second_pass(
                        self.sites[site],
                        self.username.as_str(),
                        self.urls[site].as_str(),
                        &answer,
                    );
                    let ghost checked = result@;
                    apply_verification(&mut self.results, result);
                    proof {
                        outcome = checked;
                        lemma_replaced_keeps_sites(before, checked);
                        if found_on(before, checked.site) {
                            let k = choose|k: int|
                                0 <= k < before.len() && (#[trigger] before[k]).site
                                    == checked.site && before[k].exists;
                            lemma_checked_result_stands(before, checked);
                        }
                        assert(is_second_pass_result(
                            old(self).sites()[site as int],
                            old(self).username(),
                            old(self).url_of(site as int),
                            answer.status_code,
                            answer.body_text(),
                            checked,
                        ));
                        lemma_fit_replace(
                            before,
                            self.sites@,
                            self.username@,
                            old(self).awaited@,
                            checked,
                        );
                        lemma_read_replace(
                            before,
                            self.sites@,
                            self.username@,
                            self.urls@,
                            self.rendering@,
                            site as int,
                            answer.status_code,
                            answer.body_text(),
                            checked,
                        );
                        lemma_fit_weaken(
                            views(self.results@),
                            self.sites@,
                            self.username@,
                            old(self).awaited@,
                            fewer,
                            false,
                            false,
                        );
                    }
                }
            },
            None => {
                proof {
                    lemma_fit_weaken(
                        before,
                        self.sites@,
                        self.username@,
                        old(self).awaited@,
                        fewer,
                        first_pass,
                        first_pass,
                    );
                }
            },
        }
        assert(results_fit(
            views(self.results@),
            self.sites@,
            self.username@,
            self.awaited@,
            first_pass,
        ));
        if !self.any_awaited() {
            if first_pass && self.verify {
                self.phase = ScanPhase::Pass2Dispatch;
            } else {
                self.phase = ScanPhase::Done;
            }
            proof {
                lemma_fit_weaken(
                    views(self.results@),
                    self.sites@,
                    self.username@,
                    self.awaited@,
                    self.awaited@,
                    first_pass,
                    false,
                );
                assert forall|i: int| i != site implies !old(self).awaits(i) by {
                    if 0 <= i < self.awaited@.len() {
                        assert(!self.awaited@[i]);
                    }
                }
                assert(self.current() == old(self).phase_after(site as int));
            }
        } else {
            proof {
                let i = choose|i: int| 0 <= i < self.awaited@.len() && self.awaited@[i];
                assert(old(self).awaits(i) && i != site);
                assert(self.current() == old(self).phase_after(site as int));
            }
        }
        assert(self.current() == old(self).phase_after(site as int));
        assert(response is None ==> self.results() =~= old(self).results());
        assert(response is Some && first_pass ==> is_first_pass_result(
            old(self).sites()[site as int],
            old(self).username(),
            old(self).url_of(site as int),
            old(self).rendering_of(site as int),
            response->0.status_code,
            response->0.body_text(),
            outcome,
        ) && self.results() =~= old(self).results().push(outcome));
        assert(response is Some && !first_pass ==> is_second_pass_result(
            old(self).sites()[site as int],
            old(self).username(),
            old(self).url_of(site as int),
            response->0.status_code,
            response->0.body_text(),
            outcome,
        ) && self.results() =~= replaced_by_site(old(self).results(), outcome));
        true
    }

    /// The results so far, or at the end, the results of the scan.
    pub fn into_results(self) -> (r: Vec<SearchResult>)
        requires
            self.wf(),
        ensures
            views(r@) == self.results(),
            names_come_from(views(r@), self.sites()),
            names_differ(self.sites()) ==> sites_differ(views(r@)),
            forall|k: int|
                0 <= k < r@.len() ==> (#[trigger] views(r@)[k]).username == self.username(),
            forall|k: int| 0 <= k < r@.len() ==> self.reads(#[trigger] views(r@)[k]),
    {
        proof {
            self.lemma_results_match_sites();
        }
        self.results
    }
}

} // verus!
