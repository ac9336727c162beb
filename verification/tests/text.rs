//! Text primitives, and the std calls behind them.

use sleuth::data::site_info::site_type_of;
use sleuth::request::trait_impl::{method_of, parse_method, Method};
use sleuth::sites::selection::holds_key;
use sleuth::sites::dev::GitHubChecker;
use sleuth::utils::text::{contains_bytes, contains_marker, fold_ascii, joined, same_text};
use sleuth::{Site, SiteType, SleuthError};

struct Pattern(&'static str);

impl Site for Pattern {
    fn name(&self) -> &str {
        "Pattern"
    }

    fn url_pattern(&self) -> &str {
        self.0
    }

    fn site_type(&self) -> SiteType {
        SiteType::Other
    }
}

#[test]
fn test_same_text() {
    assert!(same_text("", ""));
    assert!(same_text("abc", "abc"));
    assert!(!same_text("abc", "abd"));
    assert!(!same_text("abc", "ab"));
    assert!(!same_text("abc", "ABC"));
    assert!(same_text("größe", "größe"));
    assert!(!same_text("größe", "grösse"));
}

#[test]
fn test_joined() {
    assert_eq!(joined("", ""), "");
    assert_eq!(joined("ab", ""), "ab");
    assert_eq!(joined("", "cd"), "cd");
    assert_eq!(joined("ab", "cd"), "abcd");
}

#[test]
fn test_fold_ascii_folds_capitals_only() {
    assert_eq!(fold_ascii(b"AZaz09@[`{"), b"azaz09@[`{".to_vec());
    assert_eq!(fold_ascii(b""), Vec::<u8>::new());
    assert_eq!(fold_ascii("ÄÖ Hello".as_bytes()), "ÄÖ hello".as_bytes().to_vec());
    assert_eq!(fold_ascii(&[0x40, 0x41, 0x5a, 0x5b, 0xc1]), vec![0x40, 0x61, 0x7a, 0x5b, 0xc1]);
}

#[test]
fn test_contains_bytes() {
    assert!(contains_bytes(b"hello world", b"hello"));
    assert!(contains_bytes(b"hello world", b"world"));
    assert!(contains_bytes(b"hello world", b"o w"));
    assert!(contains_bytes(b"hello world", b"hello world"));
    assert!(contains_bytes(b"hello world", b""));
    assert!(contains_bytes(b"", b""));
    assert!(!contains_bytes(b"", b"a"));
    assert!(!contains_bytes(b"hello", b"hello world"));
    assert!(!contains_bytes(b"hello world", b"worlds"));
    assert!(!contains_bytes(b"aaab", b"aab "));
    assert!(contains_bytes(b"aaab", b"aab"));
}

#[test]
fn test_contains_marker_agrees_with_std() {
    let bodies = ["", "b-404", "xb-404x", "b-40", "B-404", "class=\"error", "ünïcödé b-404"];
    let markers = ["b-404", "class=\"error", "", "é b"];
    for body in bodies {
        for marker in markers {
            assert_eq!(contains_marker(body.as_bytes(), marker), body.contains(marker));
        }
    }
}

#[test]
fn test_build_url_replaces_the_placeholder() {
    assert_eq!(Pattern("https://ex.com/{}").build_url("alice"), "https://ex.com/alice");
    assert_eq!(Pattern("{}").build_url("alice"), "alice");
    assert_eq!(Pattern("https://{}.ex.com/u/{}").build_url("bo"), "https://bo.ex.com/u/bo");
    assert_eq!(Pattern("https://ex.com/").build_url("alice"), "https://ex.com/");
    assert_eq!(Pattern("").build_url("alice"), "");
    assert_eq!(Pattern("a{b}c{").build_url("alice"), "a{b}c{");
    assert_eq!(Pattern("{{}}").build_url("x"), "{x}");
    assert_eq!(Pattern("https://ex.com/{}").build_url(""), "https://ex.com/");
    assert_eq!(Pattern("https://ex.com/{}").build_url("{}"), "https://ex.com/{}");
    assert_eq!(GitHubChecker::new().build_url("octocat"), "https://github.com/octocat");
}

#[test]
fn test_site_type_parse_ignores_case() {
    assert_eq!(SiteType::parse("dev"), Some(SiteType::Dev));
    assert_eq!(SiteType::parse("Development"), Some(SiteType::Dev));
    assert_eq!(SiteType::parse("SOCIAL"), Some(SiteType::Social));
    assert_eq!(SiteType::parse("NsFw"), Some(SiteType::Nsfw));
    assert_eq!(SiteType::parse("PRO"), Some(SiteType::Professional));
    assert_eq!(SiteType::parse("Game"), Some(SiteType::Gaming));
    assert_eq!(SiteType::parse("FORUMS"), Some(SiteType::Forum));
    assert_eq!(SiteType::parse("Other"), Some(SiteType::Other));
    assert_eq!(SiteType::parse(""), None);
    assert_eq!(SiteType::parse("devs"), None);
    assert_eq!(SiteType::parse(" dev"), None);
}

#[test]
fn test_site_type_of_matches_letter_for_letter() {
    assert_eq!(site_type_of("dev"), Some(SiteType::Dev));
    assert_eq!(site_type_of("development"), Some(SiteType::Dev));
    assert_eq!(site_type_of("social"), Some(SiteType::Social));
    assert_eq!(site_type_of("nsfw"), Some(SiteType::Nsfw));
    assert_eq!(site_type_of("professional"), Some(SiteType::Professional));
    assert_eq!(site_type_of("pro"), Some(SiteType::Professional));
    assert_eq!(site_type_of("gaming"), Some(SiteType::Gaming));
    assert_eq!(site_type_of("game"), Some(SiteType::Gaming));
    assert_eq!(site_type_of("forum"), Some(SiteType::Forum));
    assert_eq!(site_type_of("forums"), Some(SiteType::Forum));
    assert_eq!(site_type_of("other"), Some(SiteType::Other));
    assert_eq!(site_type_of("Dev"), None);
    assert_eq!(site_type_of("invalid"), None);
    assert_eq!(site_type_of(""), None);
}

#[test]
fn test_method_of_matches_letter_for_letter() {
    assert_eq!(method_of("HEAD"), Some(Method::Head));
    assert_eq!(method_of("GET"), Some(Method::Get));
    assert_eq!(method_of("get"), None);
    assert_eq!(method_of("POST"), None);
    assert_eq!(method_of(""), None);
}

#[test]
fn test_holds_key() {
    let keys = vec!["github".to_string(), "twitter".to_string()];
    assert!(holds_key(&keys, "github"));
    assert!(holds_key(&keys, "twitter"));
    assert!(!holds_key(&keys, "GitHub"));
    assert!(!holds_key(&keys, "git"));
    assert!(!holds_key(&[], "github"));
}

#[test]
fn test_parse_method_ignores_case() {
    assert_eq!(parse_method("HEAD").unwrap(), Method::Head);
    assert_eq!(parse_method("head").unwrap(), Method::Head);
    assert_eq!(parse_method("Get").unwrap(), Method::Get);
    assert_eq!(parse_method("gEt").unwrap(), Method::Get);
    for word in ["POST", "", "GETS", " GET", "put"] {
        match parse_method(word) {
            Err(SleuthError::UnsupportedMethod(method)) => assert_eq!(method, word),
            other => panic!("unexpected: {:?}", other),
        }
    }
}
