//! The body rules of the sites that answer 2xx for missing users too.

use sleuth::sites::forum::reddit::{reddit_profile_in_body, REDDIT_PROFILE_BYTES};
use sleuth::sites::gaming::steam::steam_profile_in_body;
use sleuth::sites::nsfw::onlyfans::{onlyfans_profile_in_body, ONLYFANS_LARGE_PAGE_BYTES};
use sleuth::sites::other::medium::medium_missing_in_body;
use sleuth::sites::forum::RedditChecker;
use sleuth::sites::gaming::SteamChecker;
use sleuth::sites::nsfw::OnlyFansChecker;
use sleuth::sites::other::MediumChecker;
use sleuth::sites::site::classify_by_status;
use sleuth::Site;

fn padded(text: &str, size: usize) -> String {
    let mut body = String::from(text);
    while body.len() < size {
        body.push(' ');
    }
    body
}

#[test]
fn test_classify_by_status() {
    assert_eq!(classify_by_status(199), None);
    assert_eq!(classify_by_status(200), Some(true));
    assert_eq!(classify_by_status(299), Some(true));
    assert_eq!(classify_by_status(300), None);
    assert_eq!(classify_by_status(403), None);
    assert_eq!(classify_by_status(404), Some(false));
    assert_eq!(classify_by_status(405), None);
    assert_eq!(classify_by_status(0), None);
    assert_eq!(classify_by_status(u16::MAX), None);
}

#[test]
fn test_reddit_profile_needs_markup_and_size() {
    let markup = "<div class=\"user-profile\">";
    assert!(!reddit_profile_in_body(padded(markup, REDDIT_PROFILE_BYTES).as_bytes()));
    assert!(reddit_profile_in_body(padded(markup, REDDIT_PROFILE_BYTES + 1).as_bytes()));
    assert!(!reddit_profile_in_body(padded("<div>", REDDIT_PROFILE_BYTES + 1).as_bytes()));
    assert!(!reddit_profile_in_body(markup.as_bytes()));
    assert!(!reddit_profile_in_body(b""));
}

#[test]
fn test_reddit_markers() {
    let size = REDDIT_PROFILE_BYTES + 1;
    for markup in
        ["shreddit-user-profile", "USER-PROFILE", "profile-overview", "User-Activity", "reddit-profile"]
    {
        assert!(reddit_profile_in_body(padded(markup, size).as_bytes()), "{}", markup);
    }
    assert!(reddit_profile_in_body(padded("Karma and Cake-Day", size).as_bytes()));
    assert!(!reddit_profile_in_body(padded("karma", size).as_bytes()));
    assert!(!reddit_profile_in_body(padded("cake-day", size).as_bytes()));
    // A negative marker wins over everything.
    assert!(!reddit_profile_in_body(padded("user-profile Page Not Found", size).as_bytes()));
    assert!(!reddit_profile_in_body(padded("user-profile SORRY, THERE ISN't", size).as_bytes()));
}

#[test]
fn test_steam_profile_needs_structure_and_no_error() {
    assert!(steam_profile_in_body(b"<body class=\"profile_page\">"));
    assert!(steam_profile_in_body(b"PROFILE_HEADER"));
    assert!(steam_profile_in_body(b"playerAvatar"));
    assert!(steam_profile_in_body(b"profile_badges"));
    assert!(steam_profile_in_body(b"profile_summary"));
    assert!(steam_profile_in_body(b"persona_name ... profile_content"));
    assert!(!steam_profile_in_body(b"persona_name"));
    assert!(!steam_profile_in_body(b"profile_content"));
    assert!(!steam_profile_in_body(b"profile_page error_ctn"));
    assert!(!steam_profile_in_body(b"profile_page <div class=\"error\">"));
    assert!(!steam_profile_in_body(b"profile_page fatalerror.css"));
    assert!(!steam_profile_in_body(b"profile_page Steam Community :: Error"));
    assert!(!steam_profile_in_body(padded("nothing", 6000).as_bytes()));
    assert!(!steam_profile_in_body(b""));
}

#[test]
fn test_onlyfans_profile_by_structure_or_size() {
    assert!(onlyfans_profile_in_body(b"<div class=\"b-profile__header\">"));
    assert!(onlyfans_profile_in_body(b"G-AVATAR"));
    assert!(onlyfans_profile_in_body(b"profilePostTab"));
    assert!(onlyfans_profile_in_body(b"icon-post"));
    assert!(!onlyfans_profile_in_body(b"b-profile b-404"));
    assert!(!onlyfans_profile_in_body(b"nothing"));
    assert!(!onlyfans_profile_in_body(padded("nothing", 3000).as_bytes()));
    assert!(!onlyfans_profile_in_body(padded("nothing", ONLYFANS_LARGE_PAGE_BYTES).as_bytes()));
    assert!(onlyfans_profile_in_body(padded("nothing", ONLYFANS_LARGE_PAGE_BYTES + 1).as_bytes()));
    assert!(!onlyfans_profile_in_body(
        padded("b-wrapper-404", ONLYFANS_LARGE_PAGE_BYTES + 1).as_bytes()
    ));
}

#[test]
fn test_medium_markers_are_case_sensitive() {
    assert!(medium_missing_in_body(b"<h1>PAGE NOT FOUND</h1>"));
    assert!(medium_missing_in_body(b"Out of nothing, something."));
    assert!(!medium_missing_in_body(b"page not found"));
    assert!(!medium_missing_in_body(b"out of nothing, something."));
    assert!(!medium_missing_in_body(b""));
    let checker = MediumChecker::new();
    assert_eq!(checker.parse_response("a", 200, Some("page not found")), Some(true));
    assert_eq!(checker.parse_response("a", 200, Some("")), Some(true));
    // Without a body a 2xx answer cannot be read: the site answers 2xx for
    // missing authors too.
    assert_eq!(checker.parse_response("testauthor", 200, None), None);
    assert_eq!(checker.parse_response("a", 204, None), None);
    assert_eq!(checker.parse_response("a", 299, None), None);
    assert_eq!(checker.parse_response("a", 404, None), Some(false));
    assert_eq!(checker.parse_response("a", 404, Some("an author")), Some(false));
    assert_eq!(checker.parse_response("a", 301, Some("an author")), None);
}

#[test]
fn test_body_readers_need_a_body_for_2xx() {
    assert_eq!(RedditChecker::new().parse_response("u", 204, None), None);
    assert_eq!(SteamChecker::new().parse_response("u", 200, None), None);
    assert_eq!(MediumChecker::new().parse_response("u", 200, None), None);
    assert_eq!(OnlyFansChecker::new().parse_response("u", 299, None), None);
    assert_eq!(OnlyFansChecker::new().parse_response("u", 200, Some("b-username")), Some(true));
    assert_eq!(OnlyFansChecker::new().parse_response("u", 404, Some("b-username")), Some(false));
    assert_eq!(OnlyFansChecker::new().parse_response("u", 500, Some("b-username")), None);
    assert!(RedditChecker::new().requires_browser());
    assert!(OnlyFansChecker::new().requires_browser());
    assert!(!MediumChecker::new().requires_browser());
}
