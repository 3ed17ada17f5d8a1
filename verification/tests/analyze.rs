use jex_core::analyze::{analyze_dependencies, import_to_coord, source_imports};
use jex_core::deps::DepMap;

#[test]
fn test_import_to_coord_known() {
    assert_eq!(
        import_to_coord("com.google.gson.Gson"),
        Some("com.google.code.gson:gson".to_string())
    );
    assert_eq!(
        import_to_coord("org.slf4j.Logger"),
        Some("org.slf4j:slf4j-api".to_string())
    );
}

#[test]
fn test_import_to_coord_unknown() {
    let result = import_to_coord("com.example.mylib.MyClass");
    assert!(result.is_some());
    let coord = result.unwrap();
    assert!(coord.starts_with("com.example.mylib:"));
}

#[test]
fn test_import_to_coord_short() {
    assert_eq!(import_to_coord("java.util.List"), None);
}

#[test]
fn source_imports_skips_static_and_other_lines() {
    let src = "package a;\nimport com.google.gson.Gson;\n  import static org.junit.Assert.assertTrue;\nimport java.util.List;\nclass A {}\n";
    assert_eq!(
        source_imports(src),
        vec!["com.google.gson.Gson".to_string(), "java.util.List".to_string()]
    );
}

#[test]
fn analyze_reports_unused_and_undeclared() {
    let mut declared = DepMap::new();
    declared.insert("com.google.code.gson:gson".to_string(), "2.11.0".to_string());
    declared.insert("org.apache.commons:commons-lang3".to_string(), "3.14.0".to_string());
    let imports = vec![
        "com.google.gson.Gson".to_string(),
        "org.slf4j.Logger".to_string(),
        "org.slf4j.LoggerFactory".to_string(),
        "java.util.List".to_string(),
    ];
    let a = analyze_dependencies(&declared, &imports);
    assert_eq!(a.total, 2);
    assert_eq!(a.unused, vec!["org.apache.commons:commons-lang3".to_string()]);
    assert_eq!(a.undeclared, vec!["org.slf4j:slf4j-api".to_string()]);
}
