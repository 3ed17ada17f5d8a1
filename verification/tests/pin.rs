use jex_core::deps::{DepMap, LockFile};
use jex_core::pin::{list_pinned, pin_all, pin_dependency, unpin_dependency, PinnedDep};

fn lock(deps: &[(&str, &str)]) -> LockFile {
    let mut m = DepMap::new();
    for (k, v) in deps {
        m.insert(k.to_string(), v.to_string());
    }
    LockFile { lockfile_version: Some(1), dependencies: Some(m) }
}

#[test]
fn test_pinned_dep() {
    let dep = PinnedDep {
        coord: "com.google.code.gson:gson".to_string(),
        version: "2.11.0".to_string(),
        pinned_at: "2026-09-05".to_string(),
    };
    assert_eq!(dep.coord, "com.google.code.gson:gson");
    assert_eq!(dep.version, "2.11.0");
}

#[test]
fn test_pinned_dep_debug() {
    let dep = PinnedDep { coord: "a:b".to_string(), version: "1".to_string(), pinned_at: "t".to_string() };
    let debug_str = format!("{:?}", dep);
    assert!(debug_str.contains("a:b"));
}

#[test]
fn test_pinned_dep_clone() {
    let dep = PinnedDep { coord: "x:y".to_string(), version: "2".to_string(), pinned_at: "z".to_string() };
    let cloned = dep.clone();
    assert_eq!(dep.coord, cloned.coord);
}

#[test]
fn test_pin_unpin_cycle() {
    let lock = lock(&[("test:dep", "1.0.0")]);
    let mut pinned = DepMap::new();
    assert_eq!(pin_dependency(&lock, &mut pinned, "test:dep").unwrap(), "1.0.0");
    assert!(pinned.contains_key("test:dep"));
    assert!(unpin_dependency(&mut pinned, "test:dep"));
    assert!(!pinned.contains_key("test:dep"));
}

#[test]
fn test_unpin_nonexistent() {
    let mut pinned = DepMap::new();
    assert!(!unpin_dependency(&mut pinned, "nonexistent"));
}

#[test]
fn pin_missing_dependency_fails() {
    let lock = lock(&[("a:b", "1")]);
    let mut pinned = DepMap::new();
    assert_eq!(pin_dependency(&lock, &mut pinned, "c:d").unwrap_err().message(), "依赖 c:d 不存在");
    assert!(pinned.is_empty());
}

#[test]
fn pin_all_overrides_and_counts() {
    let lock = lock(&[("a:b", "2"), ("c:d", "3")]);
    let mut pinned = DepMap::new();
    pinned.insert("a:b".to_string(), "1".to_string());
    pinned.insert("e:f".to_string(), "9".to_string());
    assert_eq!(pin_all(&lock, &mut pinned), 2);
    assert_eq!(pinned.get("a:b").unwrap(), "2");
    assert_eq!(pinned.get("c:d").unwrap(), "3");
    assert_eq!(pinned.get("e:f").unwrap(), "9");
    let listed = list_pinned(&pinned);
    assert_eq!(listed.len(), 3);
    assert_eq!(listed[0].coord, "a:b");
    assert_eq!(listed[0].pinned_at, "unknown");
}
