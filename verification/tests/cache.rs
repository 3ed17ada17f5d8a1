use jex_core::cache::{cache_candidates, sort_by_size_desc, CacheEntry};

fn entry(name: &str, size: u64) -> CacheEntry {
    CacheEntry { name: name.to_string(), size, modified: String::new() }
}

#[test]
fn test_cache_entry() {
    let entry = CacheEntry { name: "test".to_string(), size: 1024, modified: "2026-09-05".to_string() };
    assert_eq!(entry.name, "test");
    assert_eq!(entry.size, 1024);
}

#[test]
fn test_cache_entry_debug() {
    let entry = CacheEntry { name: "test".to_string(), size: 0, modified: String::new() };
    let debug_str = format!("{:?}", entry);
    assert!(debug_str.contains("test"));
}

#[test]
fn test_cache_entry_clone() {
    let entry = CacheEntry { name: "x".to_string(), size: 42, modified: "y".to_string() };
    let cloned = entry.clone();
    assert_eq!(entry.name, cloned.name);
    assert_eq!(entry.size, cloned.size);
}

#[test]
fn sort_by_size_desc_orders_and_keeps_ties() {
    let sorted = sort_by_size_desc(vec![
        entry("a", 10),
        entry("b", 300),
        entry("c", 10),
        entry("d", 50),
    ]);
    let names: Vec<&str> = sorted.iter().map(|e| e.name.as_str()).collect();
    assert_eq!(names, vec!["b", "d", "a", "c"]);
}

#[test]
fn sort_by_size_desc_empty() {
    assert!(sort_by_size_desc(vec![]).is_empty());
}

#[test]
fn cache_candidates_under_home() {
    assert_eq!(
        cache_candidates("/home/u"),
        vec![
            "/home/u/.cache/coursier".to_string(),
            "/home/u/.coursier/cache".to_string(),
            "/home/u/.jex/cache".to_string(),
        ]
    );
}
