use jex_core::deps::{DepMap, LockFile};
use jex_core::run::{
    build_classpath, content_hash, deps_hash, java_args, javac_args, main_class, script_cache_dir,
    script_cache_key,
};

fn strings(v: &[&str]) -> Vec<String> {
    v.iter().map(|s| s.to_string()).collect()
}

#[test]
fn test_build_classpath_empty_lock() {
    let lock = LockFile { lockfile_version: Some(1), dependencies: Some(DepMap::new()) };
    let result = build_classpath("/m2", &lock, &vec![]);
    assert!(result.is_ok());
    assert!(result.unwrap().is_empty());
}

#[test]
fn test_build_classpath_with_deps() {
    let mut deps = DepMap::new();
    deps.insert("com.google.code.gson:gson".to_string(), "2.11.0".to_string());
    let lock = LockFile { lockfile_version: Some(1), dependencies: Some(deps) };
    let result = build_classpath("/m2", &lock, &vec![None]);
    assert!(result.is_ok());
    let cp = result.unwrap();
    assert!(cp.contains("gson"));
    assert_eq!(cp, "/m2/com/google/code/gson/gson/gson-2.11.0.jar");
}

#[test]
fn build_classpath_prefers_resolved_and_joins() {
    let mut deps = DepMap::new();
    deps.insert("a.b:c".to_string(), "1".to_string());
    deps.insert("bad".to_string(), "2".to_string());
    deps.insert("x:y".to_string(), "3".to_string());
    let lock = LockFile { lockfile_version: Some(1), dependencies: Some(deps) };
    let resolved = vec![
        Some(("a.b".to_string(), "c".to_string(), "1.5".to_string())),
        None,
        None,
    ];
    assert_eq!(build_classpath("/m", &lock, &resolved).unwrap(), "/m/a/b/c/c-1.5.jar:/m/x/y/y-3.jar");
}

#[test]
fn test_content_hash() {
    let h1 = content_hash("hello");
    let h2 = content_hash("hello");
    let h3 = content_hash("world");
    assert_eq!(h1, h2);
    assert_ne!(h1, h3);
}

#[test]
fn test_deps_hash() {
    let h1 = deps_hash(&["a:b:1.0".to_string()]);
    let h2 = deps_hash(&["a:b:1.0".to_string()]);
    let h3 = deps_hash(&["a:b:2.0".to_string()]);
    assert_eq!(h1, h2);
    assert_ne!(h1, h3);
}

#[test]
fn hashes_are_lower_hex() {
    let h = script_cache_key("class A {}", &strings(&["a:b:1"]));
    assert!(!h.is_empty());
    assert!(h.chars().all(|c| c.is_ascii_digit() || ('a'..='f').contains(&c)));
    assert_eq!(script_cache_dir("/home/u", "abc"), "/home/u/.jex/cache/scripts/abc");
}

#[test]
fn main_class_from_config_or_file() {
    assert_eq!(main_class(Some("app.Main"), "src/Main.java").unwrap(), "app.Main");
    assert_eq!(main_class(None, "src/Hello.java").unwrap(), "Hello");
    assert_eq!(main_class(None, ".hidden").unwrap(), ".hidden");
    assert!(main_class(None, "").is_err());
}

#[test]
fn javac_and_java_arguments() {
    assert_eq!(
        javac_args("cp", "out", &strings(&["A.java"]), &strings(&["-parameters"])),
        strings(&["-cp", "cp", "-d", "out", "A.java", "-parameters"])
    );
    assert_eq!(
        java_args("out", "lib.jar", "Main", &strings(&["-Xmx1g"]), &strings(&["x"])),
        strings(&["-cp", "out:lib.jar", "Main", "-Xmx1g", "x"])
    );
}

#[test]
fn script_cache_key_composes_hashes() {
    let deps = ["a:b:1.0".to_string()];
    let combined = format!("{}:{}", content_hash("class A {}"), deps_hash(&deps));
    assert_eq!(script_cache_key("class A {}", &deps), content_hash(&combined));
    assert_ne!(script_cache_key("class A {}", &deps), script_cache_key("class B {}", &deps));
    assert_ne!(content_hash(""), content_hash("x"));
}
