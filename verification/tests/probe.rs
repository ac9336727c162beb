//! The rules of one probe.

use sleuth::request::RequestResponse;
use sleuth::scan::probe::{
    apply_verification, check_first_pass, check_second_pass, finding, first_pass_result,
    is_found_on, second_pass_result,
};
use sleuth::sites::forum::RedditChecker;
use sleuth::sites::other::MediumChecker;
use sleuth::SearchResult;

fn found() -> SearchResult {
    SearchResult::found("Site".to_string(), "bob".to_string(), "https://s/bob".to_string())
}

fn not_found() -> SearchResult {
    SearchResult::not_found("Site".to_string(), "bob".to_string())
}

#[test]
fn test_finding_builds_both_kinds() {
    assert_eq!(finding("Site", "bob", "https://s/bob", true), found());
    assert_eq!(finding("Site", "bob", "https://s/bob", false), not_found());
}

#[test]
fn test_first_pass_follows_a_reading() {
    for rendering in [false, true] {
        for status in [200, 299, 300, 404, 500] {
            assert_eq!(
                first_pass_result("Site", "bob", "https://s/bob", rendering, status, Some(true)),
                found()
            );
            assert_eq!(
                first_pass_result("Site", "bob", "https://s/bob", rendering, status, Some(false)),
                not_found()
            );
        }
    }
}

#[test]
fn test_first_pass_uncertain_with_rendering_and_2xx_is_found() {
    assert_eq!(first_pass_result("Site", "bob", "https://s/bob", true, 200, None), found());
    assert_eq!(first_pass_result("Site", "bob", "https://s/bob", true, 250, None), found());
    assert_eq!(first_pass_result("Site", "bob", "https://s/bob", true, 299, None), found());
}

#[test]
fn test_first_pass_uncertain_otherwise_is_not_found() {
    assert_eq!(first_pass_result("Site", "bob", "https://s/bob", true, 199, None), not_found());
    assert_eq!(first_pass_result("Site", "bob", "https://s/bob", true, 300, None), not_found());
    assert_eq!(first_pass_result("Site", "bob", "https://s/bob", true, 500, None), not_found());
    assert_eq!(first_pass_result("Site", "bob", "https://s/bob", false, 200, None), not_found());
    assert_eq!(first_pass_result("Site", "bob", "https://s/bob", false, 404, None), not_found());
}

#[test]
fn test_second_pass_takes_only_a_positive_reading() {
    assert_eq!(second_pass_result("Site", "bob", "https://s/bob", Some(true)), found());
    assert_eq!(second_pass_result("Site", "bob", "https://s/bob", Some(false)), not_found());
    assert_eq!(second_pass_result("Site", "bob", "https://s/bob", None), not_found());
}

#[test]
fn test_check_first_pass_asks_the_site() {
    let reddit = RedditChecker::new();
    let url = "https://www.reddit.com/user/bob";
    let tentative = check_first_pass(&reddit, "bob", url, true, &RequestResponse::new(200));
    assert_eq!(
        tentative,
        SearchResult::found("Reddit".to_string(), "bob".to_string(), url.to_string())
    );
    let missing = check_first_pass(&reddit, "bob", url, true, &RequestResponse::new(404));
    assert_eq!(missing, SearchResult::not_found("Reddit".to_string(), "bob".to_string()));
    let blocked = check_first_pass(
        &reddit,
        "bob",
        url,
        true,
        &RequestResponse::with_body(200, "Sorry, there isn't anything here".to_string()),
    );
    assert!(!blocked.exists);
}

#[test]
fn test_check_second_pass_asks_the_site() {
    let reddit = RedditChecker::new();
    let url = "https://www.reddit.com/user/bob";
    let unread = check_second_pass(&reddit, "bob", url, &RequestResponse::new(200));
    assert_eq!(unread, SearchResult::not_found("Reddit".to_string(), "bob".to_string()));
    let medium = MediumChecker::new();
    let read = check_second_pass(
        &medium,
        "bob",
        "https://medium.com/@bob",
        &RequestResponse::with_body(200, "stories".to_string()),
    );
    assert_eq!(
        read,
        SearchResult::found(
            "Medium".to_string(),
            "bob".to_string(),
            "https://medium.com/@bob".to_string()
        )
    );
}

#[test]
fn test_is_found_on_needs_name_and_finding() {
    let results = vec![
        SearchResult::not_found("A".to_string(), "u".to_string()),
        SearchResult::found("B".to_string(), "u".to_string(), "b/u".to_string()),
    ];
    assert!(!is_found_on(&results, "A"));
    assert!(is_found_on(&results, "B"));
    assert!(!is_found_on(&results, "b"));
    assert!(!is_found_on(&results, "C"));
    assert!(!is_found_on(&Vec::new(), "A"));
}

#[test]
fn test_apply_verification_replaces_the_first_match_only() {
    let mut results = vec![
        SearchResult::found("A".to_string(), "u".to_string(), "a/u".to_string()),
        SearchResult::found("B".to_string(), "u".to_string(), "b/u".to_string()),
        SearchResult::found("B".to_string(), "u".to_string(), "b2/u".to_string()),
    ];
    apply_verification(&mut results, SearchResult::not_found("B".to_string(), "u".to_string()));
    assert_eq!(
        results,
        vec![
            SearchResult::found("A".to_string(), "u".to_string(), "a/u".to_string()),
            SearchResult::not_found("B".to_string(), "u".to_string()),
            SearchResult::found("B".to_string(), "u".to_string(), "b2/u".to_string()),
        ]
    );
}

#[test]
fn test_apply_verification_without_match_changes_nothing() {
    let before = vec![
        SearchResult::found("A".to_string(), "u".to_string(), "a/u".to_string()),
        SearchResult::not_found("B".to_string(), "u".to_string()),
    ];
    let mut results = before.clone();
    apply_verification(&mut results, SearchResult::not_found("C".to_string(), "u".to_string()));
    assert_eq!(results, before);
    let mut empty: Vec<SearchResult> = vec![];
    apply_verification(&mut empty, SearchResult::not_found("C".to_string(), "u".to_string()));
    assert!(empty.is_empty());
}

#[test]
fn test_search_result_clone_is_equal() {
    let result = found();
    assert_eq!(result.clone(), result);
    let result = SearchResult {
        site: "S".to_string(),
        username: "u".to_string(),
        exists: true,
        url: None,
        metadata: Some("note".to_string()),
    };
    assert_eq!(result.clone(), result);
}
