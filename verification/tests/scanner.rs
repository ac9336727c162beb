//! Filters over lists of sites, and the scan with stub transports.

use sleuth::request::{Request, RequestResponse};
use sleuth::scan::scanner::{
    filter_sites, filter_sites_by_name, filter_sites_by_type, scan_sites, scan_username,
};
use sleuth::sites::forum::RedditChecker;
use sleuth::sites::gaming::SteamChecker;
use sleuth::sites::nsfw::OnlyFansChecker;
use sleuth::{SearchResult, Site, SiteType, SleuthError};
use std::sync::atomic::{AtomicUsize, Ordering};
use std::sync::Arc;

// A site for the tests.
struct MockSite {
    name: String,
    site_type: SiteType,
}

impl Site for MockSite {
    fn name(&self) -> &str {
        &self.name
    }

    fn url_pattern(&self) -> &str {
        ""
    }

    fn site_type(&self) -> SiteType {
        self.site_type
    }
}

// A site with a URL pattern and the default behaviour, or with a need for a
// browser and a body marker that means not found.
struct TestSite {
    name: &'static str,
    rendering: bool,
}

impl Site for TestSite {
    fn name(&self) -> &str {
        self.name
    }

    fn url_pattern(&self) -> &str {
        "https://ex.com/{}"
    }

    fn site_type(&self) -> SiteType {
        SiteType::Other
    }

    fn requires_browser(&self) -> bool {
        self.rendering
    }

    fn parse_response(&self, _username: &str, status_code: u16, body: Option<&str>) -> Option<bool> {
        if !self.rendering {
            return match status_code {
                200..=299 => Some(true),
                404 => Some(false),
                _ => None,
            };
        }
        match (status_code, body) {
            (404, _) => Some(false),
            (200..=299, Some(text)) => Some(!text.contains("no such user")),
            _ => None,
        }
    }
}

// A transport that answers every request alike and counts its calls. Like
// a plain client it has no body for HEAD, unless it stands for a browser,
// which has the rendered document for every method.
struct Stub {
    status: u16,
    body: Option<&'static str>,
    fails: bool,
    renders: bool,
    heads: AtomicUsize,
    gets: AtomicUsize,
}

impl Stub {
    fn answering(status: u16, body: Option<&'static str>) -> Stub {
        Stub {
            status,
            body,
            fails: false,
            renders: false,
            heads: AtomicUsize::new(0),
            gets: AtomicUsize::new(0),
        }
    }

    fn rendering(body: &'static str) -> Stub {
        Stub {
            status: 200,
            body: Some(body),
            fails: false,
            renders: true,
            heads: AtomicUsize::new(0),
            gets: AtomicUsize::new(0),
        }
    }

    fn failing() -> Stub {
        Stub {
            status: 0,
            body: None,
            fails: true,
            renders: false,
            heads: AtomicUsize::new(0),
            gets: AtomicUsize::new(0),
        }
    }

    fn calls(&self) -> usize {
        self.heads.load(Ordering::SeqCst) + self.gets.load(Ordering::SeqCst)
    }

    fn answer(&self, with_body: bool) -> Result<RequestResponse, SleuthError> {
        if self.fails {
            return Err(SleuthError::Http("connection refused".to_string()));
        }
        match self.body {
            Some(text) if with_body || self.renders => Ok(RequestResponse::with_body(self.status, text.to_string())),
            _ => Ok(RequestResponse::new(self.status)),
        }
    }
}

impl Request for Stub {
    fn head(&self, _url: &str) -> Result<RequestResponse, SleuthError> {
        self.heads.fetch_add(1, Ordering::SeqCst);
        self.answer(false)
    }

    fn get(&self, _url: &str) -> Result<RequestResponse, SleuthError> {
        self.gets.fetch_add(1, Ordering::SeqCst);
        self.answer(true)
    }
}

// A transport that answers by the address.
struct ByUrl {
    found: &'static str,
}

impl Request for ByUrl {
    fn head(&self, url: &str) -> Result<RequestResponse, SleuthError> {
        if url == self.found {
            Ok(RequestResponse::new(200))
        } else if url.ends_with("/broken") {
            Err(SleuthError::Http("timeout".to_string()))
        } else {
            Ok(RequestResponse::new(404))
        }
    }

    fn get(&self, url: &str) -> Result<RequestResponse, SleuthError> {
        self.head(url)
    }
}

fn mock(name: &str, site_type: SiteType) -> MockSite {
    MockSite { name: name.to_string(), site_type }
}

fn by_site<'a>(results: &'a [SearchResult], site: &str) -> Option<&'a SearchResult> {
    results.iter().find(|r| r.site == site)
}

#[test]
fn test_filter_sites_by_type_empty() {
    let sites: Vec<MockSite> = vec![MockSite {
        name: "GitHub".to_string(),
        site_type: SiteType::Dev,
    }];
    let sites_boxed: Vec<Arc<MockSite>> = sites.into_iter().map(Arc::new).collect();
    let filtered = filter_sites_by_type(sites_boxed, &[]);
    assert_eq!(filtered.len(), 1);
}

#[test]
fn test_filter_sites_by_type_single() {
    let sites: Vec<MockSite> = vec![
        MockSite {
            name: "GitHub".to_string(),
            site_type: SiteType::Dev,
        },
        MockSite {
            name: "Twitter".to_string(),
            site_type: SiteType::Social,
        },
    ];
    let sites_boxed: Vec<Arc<MockSite>> = sites.into_iter().map(Arc::new).collect();
    let filtered = filter_sites_by_type(sites_boxed, &[SiteType::Dev]);
    assert_eq!(filtered.len(), 1);
    assert_eq!(filtered[0].name(), "GitHub");
}

#[test]
fn test_filter_sites_by_type_multiple() {
    let sites: Vec<MockSite> = vec![
        MockSite {
            name: "GitHub".to_string(),
            site_type: SiteType::Dev,
        },
        MockSite {
            name: "Twitter".to_string(),
            site_type: SiteType::Social,
        },
        MockSite {
            name: "LinkedIn".to_string(),
            site_type: SiteType::Professional,
        },
    ];
    let sites_boxed: Vec<Arc<MockSite>> = sites.into_iter().map(Arc::new).collect();
    let filtered = filter_sites_by_type(sites_boxed, &[SiteType::Dev, SiteType::Social]);
    assert_eq!(filtered.len(), 2);
}

#[test]
fn test_filter_sites_by_name() {
    let sites: Vec<MockSite> = vec![
        MockSite {
            name: "GitHub".to_string(),
            site_type: SiteType::Dev,
        },
        MockSite {
            name: "Twitter".to_string(),
            site_type: SiteType::Social,
        },
    ];
    let sites_boxed: Vec<Arc<MockSite>> = sites.into_iter().map(Arc::new).collect();
    let filtered =
        filter_sites_by_name(sites_boxed, &["github".to_string(), "twitter".to_string()]);
    assert_eq!(filtered.len(), 2);
}

#[test]
fn test_filter_sites_by_name_case_insensitive() {
    let sites: Vec<MockSite> = vec![MockSite {
        name: "GitHub".to_string(),
        site_type: SiteType::Dev,
    }];
    let sites_boxed: Vec<Arc<MockSite>> = sites.into_iter().map(Arc::new).collect();
    let filtered = filter_sites_by_name(sites_boxed, &["GITHUB".to_string()]);
    assert_eq!(filtered.len(), 1);
}

#[test]
fn test_filter_sites_combined() {
    let sites: Vec<MockSite> = vec![
        MockSite {
            name: "GitHub".to_string(),
            site_type: SiteType::Dev,
        },
        MockSite {
            name: "Twitter".to_string(),
            site_type: SiteType::Social,
        },
        MockSite {
            name: "GitLab".to_string(),
            site_type: SiteType::Dev,
        },
    ];
    let sites_boxed: Vec<Arc<MockSite>> = sites.into_iter().map(Arc::new).collect();
    let filtered = filter_sites(sites_boxed, &[SiteType::Dev], &["github".to_string()]);
    assert_eq!(filtered.len(), 1);
    assert_eq!(filtered[0].name(), "GitHub");
}

#[test]
fn test_filter_sites_keeps_order_and_trait_objects() {
    let sites: Vec<Arc<dyn Site>> = vec![
        Arc::new(mock("B", SiteType::Dev)),
        Arc::new(mock("A", SiteType::Social)),
        Arc::new(mock("C", SiteType::Dev)),
    ];
    let all = filter_sites(sites.clone(), &[], &[]);
    let names: Vec<&str> = all.iter().map(|s| s.name()).collect();
    assert_eq!(names, vec!["B", "A", "C"]);
    let dev = filter_sites(sites.clone(), &[SiteType::Dev], &[]);
    let names: Vec<&str> = dev.iter().map(|s| s.name()).collect();
    assert_eq!(names, vec!["B", "C"]);
    let none = filter_sites(sites, &[SiteType::Gaming], &["b".to_string()]);
    assert!(none.is_empty());
}

#[test]
fn test_scan_username_empty_sites() {
    let sites: Vec<Arc<dyn Site>> = vec![];
    let request = Stub::answering(200, None);
    let renderer = Stub::answering(200, None);
    let results = scan_username("testuser", sites, &request, &renderer, false);
    assert!(results.is_ok());
    let results = results.unwrap();
    assert!(results.is_empty());
    assert_eq!(request.calls(), 0);
    assert_eq!(renderer.calls(), 0);
}

#[test]
fn test_scan_empty_sites_with_verify_sends_nothing() {
    let sites: Vec<Arc<dyn Site>> = vec![];
    let request = Stub::answering(200, None);
    let renderer = Stub::answering(200, None);
    let results = scan_username("testuser", sites, &request, &renderer, true).unwrap();
    assert!(results.is_empty());
    assert_eq!(request.calls() + renderer.calls(), 0);
}

#[test]
fn test_scan_found_by_head() {
    let sites: Vec<Arc<dyn Site>> = vec![Arc::new(TestSite { name: "Test", rendering: false })];
    let request = Stub::answering(200, None);
    let renderer = Stub::failing();
    let results = scan_username("alice", sites, &request, &renderer, false).unwrap();
    assert_eq!(results.len(), 1);
    assert_eq!(results[0].site, "Test");
    assert_eq!(results[0].username, "alice");
    assert!(results[0].exists);
    assert_eq!(results[0].url, Some("https://ex.com/alice".to_string()));
    assert_eq!(results[0].metadata, None);
    assert_eq!(request.heads.load(Ordering::SeqCst), 1);
    assert_eq!(request.gets.load(Ordering::SeqCst), 0);
    assert_eq!(renderer.calls(), 0);
}

#[test]
fn test_scan_not_found_by_head() {
    let sites: Vec<Arc<dyn Site>> = vec![Arc::new(TestSite { name: "Test", rendering: false })];
    let request = Stub::answering(404, None);
    let renderer = Stub::failing();
    let results = scan_username("alice", sites, &request, &renderer, false).unwrap();
    assert_eq!(results.len(), 1);
    assert!(!results[0].exists);
    assert_eq!(results[0].url, None);
}

#[test]
fn test_scan_uncertain_is_not_found_without_rendering() {
    let sites: Vec<Arc<dyn Site>> = vec![Arc::new(TestSite { name: "Test", rendering: false })];
    let request = Stub::answering(500, None);
    let renderer = Stub::failing();
    let results = scan_username("alice", sites, &request, &renderer, false).unwrap();
    assert_eq!(results, vec![SearchResult::not_found("Test".to_string(), "alice".to_string())]);
}

#[test]
fn test_scan_tentative_found_stands_without_verify() {
    let sites: Vec<Arc<dyn Site>> = vec![Arc::new(TestSite { name: "Test", rendering: true })];
    let request = Stub::answering(200, None);
    let renderer = Stub::rendering("no such user");
    let results = scan_username("alice", sites, &request, &renderer, false).unwrap();
    assert_eq!(results.len(), 1);
    assert!(results[0].exists);
    assert_eq!(results[0].url, Some("https://ex.com/alice".to_string()));
    assert_eq!(renderer.calls(), 0);
}

#[test]
fn test_scan_tentative_found_needs_2xx() {
    let sites: Vec<Arc<dyn Site>> = vec![Arc::new(TestSite { name: "Test", rendering: true })];
    let request = Stub::answering(301, None);
    let renderer = Stub::rendering("profile");
    let results = scan_username("alice", sites, &request, &renderer, true).unwrap();
    assert_eq!(results, vec![SearchResult::not_found("Test".to_string(), "alice".to_string())]);
    assert_eq!(renderer.calls(), 0);
}

#[test]
fn test_scan_verify_overrides_tentative_found() {
    let sites: Vec<Arc<dyn Site>> = vec![Arc::new(TestSite { name: "Test", rendering: true })];
    let request = Stub::answering(200, None);
    let renderer = Stub::rendering("<html>no such user</html>");
    let results = scan_username("alice", sites, &request, &renderer, true).unwrap();
    assert_eq!(results.len(), 1);
    assert_eq!(results[0].site, "Test");
    assert!(!results[0].exists);
    assert_eq!(results[0].url, None);
    assert_eq!(request.calls(), 1);
    assert_eq!(renderer.calls(), 1);
}

#[test]
fn test_scan_verify_confirms_found() {
    let sites: Vec<Arc<dyn Site>> = vec![Arc::new(TestSite { name: "Test", rendering: true })];
    let request = Stub::answering(200, None);
    let renderer = Stub::rendering("<html>profile of alice</html>");
    let results = scan_username("alice", sites, &request, &renderer, true).unwrap();
    assert_eq!(
        results,
        vec![SearchResult::found(
            "Test".to_string(),
            "alice".to_string(),
            "https://ex.com/alice".to_string()
        )]
    );
    assert_eq!(renderer.heads.load(Ordering::SeqCst), 1);
}

#[test]
fn test_scan_verify_failure_leaves_first_result() {
    let sites: Vec<Arc<dyn Site>> = vec![Arc::new(TestSite { name: "Test", rendering: true })];
    let request = Stub::answering(200, None);
    let renderer = Stub::failing();
    let results = scan_username("alice", sites, &request, &renderer, true).unwrap();
    assert_eq!(results.len(), 1);
    assert!(results[0].exists);
    assert_eq!(renderer.calls(), 1);
}

#[test]
fn test_scan_verify_leaves_other_sites_untouched() {
    let sites: Vec<Arc<dyn Site>> = vec![
        Arc::new(TestSite { name: "Plain", rendering: false }),
        Arc::new(TestSite { name: "Rendered", rendering: true }),
        Arc::new(TestSite { name: "Other", rendering: false }),
    ];
    let request = Stub::answering(200, None);
    let renderer = Stub::rendering("no such user");
    let first = scan_username("alice", sites.clone(), &request, &renderer, false).unwrap();
    let last = scan_username("alice", sites, &request, &renderer, true).unwrap();
    assert_eq!(first.len(), 3);
    assert_eq!(last.len(), 3);
    assert_eq!(by_site(&first, "Plain"), by_site(&last, "Plain"));
    assert_eq!(by_site(&first, "Other"), by_site(&last, "Other"));
    assert!(by_site(&first, "Rendered").unwrap().exists);
    assert!(!by_site(&last, "Rendered").unwrap().exists);
    assert_eq!(renderer.calls(), 1);
}

#[test]
fn test_scan_failed_probe_is_left_out() {
    let sites: Vec<Arc<dyn Site>> = vec![Arc::new(TestSite { name: "Test", rendering: false })];
    let request = Stub::failing();
    let renderer = Stub::failing();
    let results = scan_username("alice", sites, &request, &renderer, true);
    assert!(results.is_ok());
    assert!(results.unwrap().is_empty());
}

#[test]
fn test_scan_one_failure_does_not_stop_the_rest() {
    let sites: Vec<Arc<dyn Site>> = vec![Arc::new(TestSite { name: "Test", rendering: false })];
    let request = ByUrl { found: "https://ex.com/alice" };
    let renderer = Stub::failing();
    let found = scan_username("alice", sites.clone(), &request, &renderer, false).unwrap();
    assert!(found[0].exists);
    let missing = scan_username("bob", sites.clone(), &request, &renderer, false).unwrap();
    assert!(!missing[0].exists);
    let broken = scan_username("broken", sites, &request, &renderer, false).unwrap();
    assert!(broken.is_empty());
}

#[test]
fn test_scan_is_repeatable() {
    let sites: Vec<Arc<dyn Site>> = vec![
        Arc::new(TestSite { name: "One", rendering: false }),
        Arc::new(TestSite { name: "Two", rendering: true }),
    ];
    let request = ByUrl { found: "https://ex.com/alice" };
    let renderer = Stub::failing();
    let first = scan_username("alice", sites.clone(), &request, &renderer, false).unwrap();
    let second = scan_username("alice", sites, &request, &renderer, false).unwrap();
    assert_eq!(first, second);
}

#[test]
fn test_scan_result_names_are_site_names() {
    let sites: Vec<Arc<dyn Site>> = vec![
        Arc::new(TestSite { name: "One", rendering: false }),
        Arc::new(TestSite { name: "Two", rendering: true }),
        Arc::new(TestSite { name: "Three", rendering: false }),
    ];
    let request = Stub::answering(200, None);
    let renderer = Stub::rendering("profile");
    let results = scan_username("alice", sites, &request, &renderer, true).unwrap();
    let mut names: Vec<&str> = results.iter().map(|r| r.site.as_str()).collect();
    assert_eq!(names, vec!["One", "Two", "Three"]);
    names.sort();
    names.dedup();
    assert_eq!(names.len(), 3);
}

#[test]
fn test_scan_uses_the_method_of_the_site() {
    let sites: Vec<Arc<dyn Site>> = vec![Arc::new(SteamChecker::new())];
    let request = Stub::answering(200, Some("<body class=\"profile_page\"></body>"));
    let renderer = Stub::failing();
    let results = scan_username("gaben", sites, &request, &renderer, true).unwrap();
    assert_eq!(request.gets.load(Ordering::SeqCst), 1);
    assert_eq!(request.heads.load(Ordering::SeqCst), 0);
    assert_eq!(renderer.calls(), 0);
    assert_eq!(
        results,
        vec![SearchResult::found(
            "Steam".to_string(),
            "gaben".to_string(),
            "https://steamcommunity.com/id/gaben".to_string()
        )]
    );
}

#[test]
fn test_scan_second_pass_uses_the_renderer() {
    let sites: Vec<Arc<dyn Site>> =
        vec![Arc::new(RedditChecker::new()), Arc::new(OnlyFansChecker::new())];
    // The plain transport has no body: both sites are uncertain, hence
    // tentatively found, and both are checked with the renderer, whose small
    // page shows no profile.
    let request = Stub::answering(200, None);
    let renderer = Stub::rendering("<div class=\"b-404\"></div>");
    let results = scan_username("spez", sites, &request, &renderer, true).unwrap();
    assert_eq!(results.len(), 2);
    assert_eq!(request.gets.load(Ordering::SeqCst), 2);
    assert_eq!(renderer.gets.load(Ordering::SeqCst), 2);
    assert!(!by_site(&results, "Reddit").unwrap().exists);
    assert!(!by_site(&results, "OnlyFans").unwrap().exists);
}

#[test]
fn test_scan_sites_takes_references() {
    let one = TestSite { name: "One", rendering: false };
    let two = TestSite { name: "Two", rendering: false };
    let sites: Vec<&TestSite> = vec![&one, &two];
    let request = Stub::answering(404, None);
    let renderer = Stub::failing();
    let results = scan_sites("alice", sites, &request, &renderer, false);
    assert_eq!(results.len(), 2);
    assert!(results.iter().all(|r| !r.exists && r.username == "alice"));
}

#[test]
fn test_scan_username_with_custom_request() {
    let checker = sleuth::sites::dev::GitHubChecker::new();
    let sites: Vec<Arc<dyn Site>> = vec![Arc::new(checker)];
    let request = Stub::answering(200, None);
    let results = scan_username("octocat", sites, &request, &Stub::failing(), false);
    assert!(results.is_ok());
    let results = results.unwrap();
    assert_eq!(results.len(), 1);
    assert_eq!(results[0].site, "GitHub");
}

#[test]
fn test_scan_username_multiple_sites() {
    let checker = sleuth::sites::dev::GitHubChecker::new();
    let sites: Vec<Arc<dyn Site>> = vec![Arc::new(checker)];
    let request = Stub::answering(404, None);
    let results = scan_username("nonexistentuser12345", sites, &request, &Stub::failing(), false);
    assert!(results.is_ok());
    let results = results.unwrap();
    assert_eq!(results.len(), 1);
    assert!(!results[0].exists);
}

#[test]
fn test_scan_username_error_handling() {
    let checker = sleuth::sites::dev::GitHubChecker::new();
    let sites: Vec<Arc<dyn Site>> = vec![Arc::new(checker)];
    let request = Stub::failing();
    let results = scan_username("test", sites, &request, &Stub::failing(), false);
    assert!(results.is_ok());
}

#[test]
fn test_scan_username_custom_parse_response() {
    struct CustomParseSite;
    impl Site for CustomParseSite {
        fn name(&self) -> &str {
            "CustomParse"
        }
        fn url_pattern(&self) -> &str {
            "http://example.com/{}"
        }
        fn site_type(&self) -> SiteType {
            SiteType::Other
        }
        fn parse_response(
            &self,
            _username: &str,
            status_code: u16,
            _body: Option<&str>,
        ) -> Option<bool> {
            if status_code == 200 {
                Some(true)
            } else {
                Some(false)
            }
        }
    }

    let site = CustomParseSite;
    let sites: Vec<Arc<dyn Site>> = vec![Arc::new(site)];
    let results = scan_username("test", sites.clone(), &Stub::answering(200, None), &Stub::failing(), false);
    assert!(results.is_ok());
    assert!(results.unwrap()[0].exists);
    let results = scan_username("test", sites, &Stub::answering(204, None), &Stub::failing(), false);
    assert!(!results.unwrap()[0].exists);
}
