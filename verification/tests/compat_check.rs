use jex_core::compat_check::{check_compatibility, CompatibilityReport, VersionConflict};

#[test]
fn test_compatibility_report() {
    let report = CompatibilityReport {
        compatible: vec!["serde".to_string()],
        conflicts: vec![],
        warnings: vec![],
    };
    assert_eq!(report.compatible.len(), 1);
    assert!(report.conflicts.is_empty());
}

#[test]
fn test_version_conflict() {
    let conflict = VersionConflict {
        dependency: "tokio".to_string(),
        required_by: vec!["reqwest".to_string(), "hyper".to_string()],
        versions: vec!["1.0.0".to_string(), "1.1.0".to_string()],
    };
    assert_eq!(conflict.dependency, "tokio");
    assert_eq!(conflict.versions.len(), 2);
}

#[test]
fn test_check_compatibility_empty_deps() {
    let report = check_compatibility(&vec![]).unwrap();
    assert!(report.compatible.is_empty());
    assert!(report.conflicts.is_empty());
    assert!(report.warnings.is_empty());
}

#[test]
fn test_version_conflict_debug_clone() {
    let conflict = VersionConflict {
        dependency: "test".to_string(),
        required_by: vec![],
        versions: vec!["1.0".to_string()],
    };
    let debug = format!("{:?}", conflict);
    assert!(debug.contains("test"));
    let cloned = conflict.clone();
    assert_eq!(cloned.dependency, "test");
}

#[test]
fn test_compatibility_report_debug_clone() {
    let report = CompatibilityReport { compatible: vec![], conflicts: vec![], warnings: vec![] };
    let debug = format!("{:?}", report);
    assert!(debug.contains("CompatibilityReport"));
    let cloned = report.clone();
    assert!(cloned.compatible.is_empty());
}

#[test]
fn check_compatibility_groups_by_artifact() {
    let deps = vec![
        ("a:log".to_string(), "1.0".to_string()),
        ("b:json".to_string(), "2.0".to_string()),
        ("c:log".to_string(), "1.1".to_string()),
        ("d:json".to_string(), "2.0".to_string()),
        ("e:empty".to_string(), "".to_string()),
    ];
    let r = check_compatibility(&deps).unwrap();
    assert_eq!(r.conflicts.len(), 1);
    assert_eq!(r.conflicts[0].dependency, "log");
    assert_eq!(r.conflicts[0].versions, vec!["1.0".to_string(), "1.1".to_string()]);
    assert_eq!(r.compatible, vec!["json".to_string(), "empty".to_string()]);
    assert_eq!(r.warnings, vec!["e:empty 缺少版本信息".to_string()]);
}
