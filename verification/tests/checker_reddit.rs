//! The reddit checker.

use sleuth::sites::forum::RedditChecker;
use sleuth::{Site, SiteType};

#[test]
fn test_reddit_checker_new() {
    let checker = RedditChecker::new();
    assert_eq!(checker.name(), "Reddit");
}

#[test]
fn test_reddit_checker_url_pattern() {
    let checker = RedditChecker::new();
    assert_eq!(checker.url_pattern(), "https://www.reddit.com/user/{}");
}

#[test]
fn test_reddit_checker_build_url() {
    let checker = RedditChecker::new();
    assert_eq!(
        checker.build_url("spez"),
        "https://www.reddit.com/user/spez"
    );
}

#[test]
fn test_reddit_checker_site_type() {
    let checker = RedditChecker::new();
    assert_eq!(checker.site_type(), SiteType::Forum);
}

#[test]
fn test_reddit_checker_http_method() {
    let checker = RedditChecker::new();
    assert_eq!(checker.http_method(), "GET");
}

#[test]
fn test_reddit_checker_false_positive_sorry_message() {
    let checker = RedditChecker::new();
    let body = r#"<html><body>Sorry, there isn't anything here</body></html>"#;
    assert_eq!(
        checker.parse_response("testuser", 200, Some(body)),
        Some(false)
    );
}

#[test]
fn test_reddit_checker_false_positive_page_not_found() {
    let checker = RedditChecker::new();
    let body = r#"<html><body>page not found</body></html>"#;
    assert_eq!(
        checker.parse_response("testuser", 200, Some(body)),
        Some(false)
    );
}

#[test]
fn test_reddit_checker_false_positive_blocked() {
    let checker = RedditChecker::new();
    let body = r#"<html><body>You've been blocked by network security</body></html>"#;
    assert_eq!(
        checker.parse_response("testuser", 200, Some(body)),
        Some(false)
    );
}

#[test]
fn test_reddit_checker_parse_response() {
    let checker = RedditChecker::new();
    // With body=None (HEAD request), we can't determine - returns None
    assert_eq!(checker.parse_response("testuser", 200, None), None);
    assert_eq!(checker.parse_response("testuser", 404, None), Some(false));
    assert_eq!(checker.parse_response("testuser", 500, None), None);

    // With body containing profile structure, should return true
    // Need substantial content (> 50KB) and profile indicators
    let mut body_with_profile = String::from(
        r#"<html><body class="shreddit-user-profile"><div>karma</div><div>cake-day</div>"#,
    );
    body_with_profile.push_str(&"x".repeat(60000)); // Make it > 50KB
    body_with_profile.push_str("</body></html>");
    assert_eq!(
        checker.parse_response("testuser", 200, Some(&body_with_profile)),
        Some(true)
    );
}
