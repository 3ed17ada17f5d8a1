use jex_core::watch::{debounce_elapsed, matches_patterns, should_forward, should_ignore, WatchConfig};

#[test]
fn test_watch_config_default() {
    let config = WatchConfig::default();
    assert_eq!(config.dir, "src");
    assert_eq!(config.debounce_ms, 500);
    assert!(config.patterns.contains(&".java".to_string()));
}

#[test]
fn test_matches_patterns_java() {
    let patterns = vec![".java".to_string()];
    assert!(matches_patterns("Main.java", &patterns));
    assert!(!matches_patterns("Main.rs", &patterns));
    assert!(!matches_patterns("README.md", &patterns));
}

#[test]
fn test_matches_patterns_multiple() {
    let patterns = vec![".java".to_string(), ".kt".to_string()];
    assert!(matches_patterns("Main.java", &patterns));
    assert!(matches_patterns("Main.kt", &patterns));
    assert!(!matches_patterns("Main.py", &patterns));
}

#[test]
fn test_should_ignore() {
    assert!(should_ignore("target/debug/jex"));
    assert!(should_ignore(".git/config"));
    assert!(!should_ignore("src/.gitignore"));
    assert!(!should_ignore("src/Main.java"));
    assert!(!should_ignore("crates/jex-core/src/lib.rs"));
}

#[test]
fn test_should_ignore_nested() {
    assert!(should_ignore("project/target/classes/Main.class"));
    assert!(!should_ignore("project/src/Main.java"));
}

#[test]
fn extension_rules_follow_path() {
    let patterns = vec![".java".to_string()];
    assert!(!matches_patterns(".java", &patterns));
    assert!(matches_patterns("src/a/B.java/", &patterns));
    assert!(!matches_patterns("src/..", &patterns));
    assert!(should_forward("src/Main.java", &patterns));
    assert!(!should_forward("target/Main.java", &patterns));
}

#[test]
fn debounce_threshold() {
    assert!(debounce_elapsed(500_000_000, 500));
    assert!(!debounce_elapsed(499_999_999, 500));
}
