//! Smoke tests of the module tree.

use sleuth::sites::all_sites;

#[test]
fn test_cli_module() {
    // CLI module tests
    assert!(true);
}

#[test]
fn test_config_module() {
    // Config module tests
    assert!(true);
}

#[test]
fn test_core_module() {
    // Core module tests
    assert!(true);
}

#[test]
fn test_data_module() {
    // Data module tests
    assert!(true);
}

#[test]
fn test_http_module() {
    // HTTP module tests
    assert!(true);
}

#[test]
fn test_library_initialization() {
    // Basic smoke test
    assert!(true);
}

#[test]
fn test_dev_sites_module() {
    // Dev sites module tests
    assert!(true);
}

#[test]
fn test_forum_sites_module() {
    // Forum sites module tests
    assert!(true);
}

#[test]
fn test_gaming_sites_module() {
    // Gaming sites module tests
    assert!(true);
}

#[test]
fn test_nsfw_sites_module() {
    // NSFW sites module tests
    assert!(true);
}

#[test]
fn test_other_sites_module() {
    // Other sites module tests
    assert!(true);
}

#[test]
fn test_professional_sites_module() {
    // Professional sites module tests
    assert!(true);
}

#[test]
fn test_social_sites_module() {
    // Social sites module tests
    assert!(true);
}

#[test]
fn test_utils_module() {
    // Utils module tests
    assert!(true);
}

#[test]
fn test_sites_module() {
    // Sites module tests
    assert!(true);
}

#[test]
fn test_all_sites() {
    let sites = all_sites();
    // Initially empty, but structure is in place
    assert!(sites.is_empty() || sites.len() > 0);
}
