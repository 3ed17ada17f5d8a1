use jex_core::license_check::{
    check_all_licenses, check_dependency_license, extract_license_from_pom, is_license_compatible,
    maven_pom_url, pom_candidate_urls, LicenseCheckResult,
};

#[test]
fn test_license_check_result() {
    let result = LicenseCheckResult { spdx_id: "MIT".to_string(), is_compatible: true, issues: Vec::new() };
    assert_eq!(result.spdx_id, "MIT");
    assert!(result.is_compatible);
}

#[test]
fn test_is_license_compatible() {
    assert!(is_license_compatible("MIT"));
    assert!(is_license_compatible("Apache-2.0"));
    assert!(is_license_compatible("BSD-3-Clause"));
    assert!(!is_license_compatible("GPL-2.0"));
    assert!(!is_license_compatible("GPL-3.0"));
    assert!(!is_license_compatible("Unknown"));
}

#[test]
fn license_from_pom_names_and_spdx_url() {
    assert_eq!(
        extract_license_from_pom("<licenses><license><name>MIT</name></license></licenses>"),
        Some("MIT".to_string())
    );
    assert_eq!(
        extract_license_from_pom("<name>Apache License, Version 2.0</name>"),
        Some("Apache-2.0".to_string())
    );
    assert_eq!(
        extract_license_from_pom("<license><url>https://spdx.org/licenses/EPL-2.0</url></license>"),
        Some("EPL-2.0".to_string())
    );
    assert_eq!(extract_license_from_pom("<url>https://example.com/license</url>"), None);
    assert_eq!(extract_license_from_pom("<project/>"), None);
}

#[test]
fn pom_urls_for_coordinate() {
    assert_eq!(
        maven_pom_url("com.google.code.gson", "gson", "2.11.0"),
        "https://repo1.maven.org/maven2/com/google/code/gson/gson/2.11.0/gson.pom"
    );
    let urls = pom_candidate_urls("org.slf4j:slf4j-api").unwrap();
    assert_eq!(urls.len(), 3);
    assert_eq!(urls[1], "https://repo1.maven.org/maven2/org/slf4j/slf4j-api/2.0.0/slf4j-api.pom");
    assert!(pom_candidate_urls("a:b:c").is_none());
}

#[test]
fn dependency_license_issues() {
    let unknown = check_dependency_license(None).unwrap();
    assert_eq!(unknown.spdx_id, "Unknown");
    assert!(!unknown.is_compatible);
    assert_eq!(unknown.issues, vec!["无法获取许可证信息".to_string()]);
    let gpl = check_dependency_license(Some("GPL-3.0".to_string())).unwrap();
    assert_eq!(gpl.issues, vec!["许可证 GPL-3.0 可能与项目不兼容".to_string()]);
    let mit = check_dependency_license(Some("MIT".to_string())).unwrap();
    assert!(mit.is_compatible);
    assert!(mit.issues.is_empty());
}

#[test]
fn check_all_licenses_sorts_in_order() {
    let checked = vec![
        ("a:x".to_string(), check_dependency_license(Some("MIT".to_string())).unwrap()),
        ("b:y".to_string(), check_dependency_license(None).unwrap()),
        ("c:z".to_string(), check_dependency_license(Some("GPL-2.0".to_string())).unwrap()),
        ("d:w".to_string(), check_dependency_license(Some("ISC".to_string())).unwrap()),
    ];
    let r = check_all_licenses(&checked).unwrap();
    assert_eq!(r.compatible, vec!["a:x".to_string(), "d:w".to_string()]);
    assert_eq!(r.incompatible, vec!["c:z".to_string()]);
    assert_eq!(r.unknown, vec!["b:y".to_string()]);
}

#[test]
fn pom_license_readable_cases() {
    assert!(jex_core::license_check::pom_license_readable("<license><name>MIT</name></license>"));
    assert!(jex_core::license_check::pom_license_readable("<url>https://spdx.org/licenses/MIT</url>"));
    assert!(jex_core::license_check::pom_license_readable("no tags at all"));
    assert!(!jex_core::license_check::pom_license_readable("</url> then <url>"));
    assert!(jex_core::license_check::pom_license_readable("<name>MIT</name></url><url>"));
}
