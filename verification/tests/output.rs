//! What the output layer gets from the library.

use sleuth::cli::output::{csv_line, csv_lines, output_format, results_with, OutputFormat};
use sleuth::SearchResult;

fn sample() -> Vec<SearchResult> {
    vec![
        SearchResult::found(
            "GitHub".to_string(),
            "test".to_string(),
            "https://github.com/test".to_string(),
        ),
        SearchResult::not_found("Twitter".to_string(), "test".to_string()),
        SearchResult::found(
            "GitLab".to_string(),
            "test".to_string(),
            "https://gitlab.com/test".to_string(),
        ),
    ]
}

#[test]
fn test_output_format_names() {
    assert_eq!(output_format("json"), OutputFormat::Json);
    assert_eq!(output_format("csv"), OutputFormat::Csv);
    assert_eq!(output_format("text"), OutputFormat::Text);
    assert_eq!(output_format("xml"), OutputFormat::Text);
    assert_eq!(output_format("JSON"), OutputFormat::Text);
    assert_eq!(output_format(""), OutputFormat::Text);
}

#[test]
fn test_csv_line() {
    let results = sample();
    assert_eq!(csv_line(&results[0]), "GitHub,test,true,https://github.com/test");
    assert_eq!(csv_line(&results[1]), "Twitter,test,false,");
    assert_eq!(csv_line(&SearchResult::new("S".to_string(), "u".to_string(), true)), "S,u,true,");
}

#[test]
fn test_csv_lines() {
    assert_eq!(csv_lines(&[]), vec!["site,username,exists,url".to_string()]);
    assert_eq!(
        csv_lines(&sample()),
        vec![
            "site,username,exists,url".to_string(),
            "GitHub,test,true,https://github.com/test".to_string(),
            "Twitter,test,false,".to_string(),
            "GitLab,test,true,https://gitlab.com/test".to_string(),
        ]
    );
}

#[test]
fn test_results_with_splits_by_finding() {
    let results = sample();
    let found = results_with(&results, true);
    let not_found = results_with(&results, false);
    let names: Vec<&str> = found.iter().map(|r| r.site.as_str()).collect();
    assert_eq!(names, vec!["GitHub", "GitLab"]);
    let names: Vec<&str> = not_found.iter().map(|r| r.site.as_str()).collect();
    assert_eq!(names, vec!["Twitter"]);
    assert!(results_with(&[], true).is_empty());
    assert!(results_with(&[], false).is_empty());
}
