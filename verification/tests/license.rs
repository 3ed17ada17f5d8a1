use jex_core::license::{
    analyze_compatibility, categorize_license, extract_license_from_pom, normalize_spdx_id, spdx_of_lowercase,
    LicenseCategory, LicenseInfo,
};

fn info(artifact: &str, spdx: &str, category: LicenseCategory) -> LicenseInfo {
    LicenseInfo {
        group: "test".to_string(),
        artifact: artifact.to_string(),
        version: "1.0".to_string(),
        license: spdx.to_string(),
        spdx_id: spdx.to_string(),
        category,
    }
}

#[test]
fn test_license_category_display() {
    assert_eq!(LicenseCategory::Permissive.display(), "Permissive");
    assert_eq!(LicenseCategory::WeakCopyleft.display(), "Weak Copyleft");
    assert_eq!(LicenseCategory::StrongCopyleft.display(), "Strong Copyleft");
    assert_eq!(LicenseCategory::Unknown.display(), "Unknown");
}

#[test]
fn test_normalize_spdx_id() {
    assert_eq!(normalize_spdx_id("mit"), "MIT");
    assert_eq!(normalize_spdx_id("Apache License 2.0"), "Apache-2.0");
    assert_eq!(normalize_spdx_id("gpl v3"), "GPL-3.0");
}

#[test]
fn test_categorize_license() {
    assert_eq!(categorize_license("MIT"), LicenseCategory::Permissive);
    assert_eq!(categorize_license("Apache-2.0"), LicenseCategory::Permissive);
    assert_eq!(categorize_license("GPL-3.0"), LicenseCategory::StrongCopyleft);
    assert_eq!(categorize_license("LGPL-2.1"), LicenseCategory::WeakCopyleft);
}

#[test]
fn test_analyze_compatibility_no_conflicts() {
    let licenses = vec![
        info("a", "MIT", LicenseCategory::Permissive),
        info("b", "Apache-2.0", LicenseCategory::Permissive),
    ];
    let report = analyze_compatibility(&licenses);
    assert!(report.compatible);
    assert!(report.conflicts.is_empty());
    assert_eq!(report.summary.permissive, 2);
}

#[test]
fn test_analyze_compatibility_with_conflicts() {
    let licenses = vec![
        info("a", "MIT", LicenseCategory::Permissive),
        info("b", "GPL-3.0", LicenseCategory::StrongCopyleft),
    ];
    let report = analyze_compatibility(&licenses);
    assert!(!report.compatible);
    assert!(!report.conflicts.is_empty());
    assert_eq!(report.summary.strong_copyleft, 1);
    assert_eq!(report.conflicts[0].license1, "GPL-3.0");
    assert_eq!(report.conflicts[0].license2, "MIT");
}

#[test]
fn test_extract_license_from_pom_with_license() {
    let pom = "<project><licenses><license><name>The MIT License</name></license></licenses></project>";
    assert_eq!(extract_license_from_pom(pom), "The MIT License");
}

#[test]
fn test_extract_license_from_pom_no_license() {
    let pom = "<?xml version=\"1.0\"?>\n<project><name>test</name></project>";
    assert_eq!(extract_license_from_pom(pom), "Unknown");
}

#[test]
fn test_extract_license_from_pom_empty() {
    assert_eq!(extract_license_from_pom(""), "Unknown");
}

#[test]
fn test_normalize_spdx_id_all_variants() {
    assert_eq!(normalize_spdx_id("MIT"), "MIT");
    assert_eq!(normalize_spdx_id("mit"), "MIT");
    assert_eq!(normalize_spdx_id("Apache License 2.0"), "Apache-2.0");
    assert_eq!(normalize_spdx_id("apache-2.0"), "Apache-2.0");
    assert_eq!(normalize_spdx_id("BSD 2-Clause"), "BSD-2-Clause");
    assert_eq!(normalize_spdx_id("bsd 2 clause"), "BSD-2-Clause");
    assert_eq!(normalize_spdx_id("BSD 3-Clause"), "BSD-3-Clause");
    assert_eq!(normalize_spdx_id("bsd 3 clause"), "BSD-3-Clause");
    assert_eq!(normalize_spdx_id("GPL v3"), "GPL-3.0");
    assert_eq!(normalize_spdx_id("GPL-3.0"), "GPL-3.0");
    assert_eq!(normalize_spdx_id("GNU General Public License v3"), "GPL-3.0");
    assert_eq!(normalize_spdx_id("GPL v2"), "GPL-2.0");
    assert_eq!(normalize_spdx_id("LGPL v3"), "LGPL-3.0");
    assert_eq!(normalize_spdx_id("LGPL v2.1"), "LGPL-2.1");
    assert_eq!(normalize_spdx_id("EPL 2.0"), "EPL-2.0");
    assert_eq!(normalize_spdx_id("MPL 2.0"), "MPL-2.0");
    assert_eq!(normalize_spdx_id("WTFPL"), "WTFPL");
    assert_eq!(normalize_spdx_id("Custom-Proprietary"), "Custom-Proprietary");
}

#[test]
fn test_categorize_license_all_variants() {
    assert_eq!(categorize_license("MIT"), LicenseCategory::Permissive);
    assert_eq!(categorize_license("Apache-2.0"), LicenseCategory::Permissive);
    assert_eq!(categorize_license("BSD-2-Clause"), LicenseCategory::Permissive);
    assert_eq!(categorize_license("BSD-3-Clause"), LicenseCategory::Permissive);
    assert_eq!(categorize_license("ISC"), LicenseCategory::Permissive);
    assert_eq!(categorize_license("0BSD"), LicenseCategory::Permissive);
    assert_eq!(categorize_license("LGPL-2.1"), LicenseCategory::WeakCopyleft);
    assert_eq!(categorize_license("LGPL-3.0"), LicenseCategory::WeakCopyleft);
    assert_eq!(categorize_license("MPL-2.0"), LicenseCategory::WeakCopyleft);
    assert_eq!(categorize_license("EPL-2.0"), LicenseCategory::WeakCopyleft);
    assert_eq!(categorize_license("GPL-2.0"), LicenseCategory::StrongCopyleft);
    assert_eq!(categorize_license("GPL-3.0"), LicenseCategory::StrongCopyleft);
    assert_eq!(categorize_license("AGPL-3.0"), LicenseCategory::StrongCopyleft);
    assert_eq!(categorize_license("WTFPL"), LicenseCategory::Unknown);
    assert_eq!(categorize_license("BSD-4-Clause"), LicenseCategory::Unknown);
}

#[test]
fn test_analyze_compatibility_empty() {
    let report = analyze_compatibility(&[]);
    assert!(report.compatible);
    assert!(report.conflicts.is_empty());
    assert_eq!(report.summary.total_dependencies, 0);
}

#[test]
fn test_analyze_compatibility_weak_copyleft_only() {
    let licenses = vec![info("b", "LGPL-2.1", LicenseCategory::WeakCopyleft)];
    let report = analyze_compatibility(&licenses);
    assert!(report.compatible);
    assert_eq!(report.summary.weak_copyleft, 1);
}

#[test]
fn test_analyze_compatibility_unknown_only() {
    let licenses = vec![LicenseInfo {
        group: "a".to_string(),
        artifact: "b".to_string(),
        version: "1.0".to_string(),
        license: "Proprietary".to_string(),
        spdx_id: "LicenseRef-Unknown".to_string(),
        category: LicenseCategory::Unknown,
    }];
    let report = analyze_compatibility(&licenses);
    assert!(report.compatible);
    assert_eq!(report.summary.unknown, 1);
}

#[test]
fn test_license_info_clone() {
    let i = LicenseInfo {
        group: "g".to_string(),
        artifact: "a".to_string(),
        version: "1.0".to_string(),
        license: "MIT".to_string(),
        spdx_id: "MIT".to_string(),
        category: LicenseCategory::Permissive,
    };
    let cloned = i.clone();
    assert_eq!(cloned.group, "g");
    assert_eq!(cloned.spdx_id, "MIT");
}

#[test]
fn test_license_category_clone() {
    let c = LicenseCategory::StrongCopyleft;
    let cloned = c;
    assert_eq!(cloned, LicenseCategory::StrongCopyleft);
}

#[test]
fn test_normalize_spdx_id_case_insensitive() {
    assert_eq!(normalize_spdx_id("MIT"), "MIT");
    assert_eq!(normalize_spdx_id("mit"), "MIT");
    assert_eq!(normalize_spdx_id("Mit"), "MIT");
}

#[test]
fn analyze_compatibility_counts_and_warnings() {
    let licenses = vec![
        info("a", "MIT", LicenseCategory::Permissive),
        info("b", "GPL-3.0", LicenseCategory::StrongCopyleft),
        info("c", "MIT", LicenseCategory::Permissive),
        info("d", "EPL-2.0", LicenseCategory::WeakCopyleft),
    ];
    let r = analyze_compatibility(&licenses);
    let s = &r.summary;
    assert_eq!(s.permissive + s.weak_copyleft + s.strong_copyleft + s.unknown, s.total_dependencies);
    assert_eq!(
        s.license_counts,
        vec![("MIT".to_string(), 2), ("GPL-3.0".to_string(), 1), ("EPL-2.0".to_string(), 1)]
    );
    assert!(!r.warnings.is_empty());
}

#[test]
fn spdx_table_of_lowercase_names() {
    assert_eq!(spdx_of_lowercase("mit"), Some("MIT".to_string()));
    assert_eq!(spdx_of_lowercase("bsd 2 clause"), Some("BSD-2-Clause".to_string()));
    assert_eq!(spdx_of_lowercase("MIT"), None);
    assert_eq!(spdx_of_lowercase("wtfpl"), None);
}

#[test]
fn normalizing_twice_is_normalizing_once() {
    for s in ["MIT", "mit", "Apache License 2.0", "BSD-2-Clause", "bsd 3 clause", "GPL v2", "lgpl-2.1", "EPL 2.0", "WTFPL", ""] {
        let once = normalize_spdx_id(s);
        assert_eq!(normalize_spdx_id(&once), once);
    }
}
