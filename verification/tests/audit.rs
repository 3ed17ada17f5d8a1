use jex_core::audit::{
    extract_fixed_version, extract_severity, generate_report, get_fix_suggestion, osv_query,
    severity_of_uppercase, sort_by_severity, vulnerability_from_osv, OsvEntry, Severity, Vulnerability,
};

fn vuln(group: &str, artifact: &str, cve: &str, severity: Severity, fixed: Option<&str>) -> Vulnerability {
    Vulnerability {
        group: group.to_string(),
        artifact: artifact.to_string(),
        current_version: "1.0".to_string(),
        cve_id: cve.to_string(),
        severity,
        description: "test".to_string(),
        fixed_version: fixed.map(|s| s.to_string()),
    }
}

#[test]
fn test_severity_ordering() {
    assert!(Severity::Critical > Severity::High);
    assert!(Severity::High > Severity::Medium);
    assert!(Severity::Medium > Severity::Low);
    assert!(Severity::Low < Severity::Critical);
    assert!(Severity::Medium == Severity::Medium);
}

#[test]
fn test_severity_display() {
    assert_eq!(Severity::Critical.display(), "CRITICAL");
    assert_eq!(Severity::High.display(), "HIGH");
    assert_eq!(Severity::Medium.display(), "MEDIUM");
    assert_eq!(Severity::Low.display(), "LOW");
}

#[test]
fn test_severity_fmt_trait() {
    assert_eq!(Severity::Critical.to_string(), "CRITICAL");
    assert_eq!(Severity::High.to_string(), "HIGH");
    assert_eq!(Severity::Medium.to_string(), "MEDIUM");
    assert_eq!(Severity::Low.to_string(), "LOW");
}

#[test]
fn test_severity_color() {
    assert_eq!(Severity::Critical.color(), "\x1b[31m");
    assert_eq!(Severity::High.color(), "\x1b[31m");
    assert_eq!(Severity::Medium.color(), "\x1b[33m");
    assert_eq!(Severity::Low.color(), "\x1b[32m");
}

#[test]
fn test_severity_priority() {
    assert!(Severity::Critical > Severity::High);
    assert!(Severity::High > Severity::Medium);
    assert!(Severity::Medium > Severity::Low);
    assert!(Severity::Critical.priority() > Severity::High.priority());
    assert!(Severity::Medium.priority() > Severity::Low.priority());
}

#[test]
fn test_get_fix_suggestion() {
    let v = Vulnerability {
        group: "com.google.code.gson".to_string(),
        artifact: "gson".to_string(),
        current_version: "2.10.0".to_string(),
        cve_id: "CVE-2022-25647".to_string(),
        severity: Severity::High,
        description: "test".to_string(),
        fixed_version: Some("2.11.0".to_string()),
    };
    let suggestion = get_fix_suggestion(&v);
    assert!(suggestion.is_some());
    assert!(suggestion.unwrap().contains("2.11.0"));
}

#[test]
fn test_get_fix_suggestion_none() {
    let v = Vulnerability {
        group: "test".to_string(),
        artifact: "test".to_string(),
        current_version: "1.0".to_string(),
        cve_id: "CVE-001".to_string(),
        severity: Severity::Low,
        description: "test".to_string(),
        fixed_version: None,
    };
    assert!(get_fix_suggestion(&v).is_none());
}

#[test]
fn fix_suggestion_exact_text() {
    let v = Vulnerability {
        group: "com.google.code.gson".to_string(),
        artifact: "gson".to_string(),
        current_version: "2.10.0".to_string(),
        cve_id: "CVE-2022-25647".to_string(),
        severity: Severity::High,
        description: "test".to_string(),
        fixed_version: Some("2.11.0".to_string()),
    };
    assert_eq!(
        get_fix_suggestion(&v),
        Some("升级 com.google.code.gson:gson 从 2.10.0 到 2.11.0".to_string())
    );
}

#[test]
fn test_generate_report() {
    let vulns = vec![
        vuln("test", "a", "CVE-001", Severity::High, None),
        vuln("test", "b", "CVE-002", Severity::Low, None),
    ];
    let report = generate_report(vulns);
    assert_eq!(report.total_vulnerabilities, 2);
    assert_eq!(report.high, 1);
    assert_eq!(report.low, 1);
    assert_eq!(report.critical, 0);
    assert_eq!(report.medium, 0);
}

#[test]
fn test_generate_report_empty() {
    let report = generate_report(vec![]);
    assert_eq!(report.total_vulnerabilities, 0);
    assert_eq!(report.critical, 0);
    assert_eq!(report.high, 0);
    assert_eq!(report.medium, 0);
    assert_eq!(report.low, 0);
    assert!(report.vulnerabilities.is_empty());
}

#[test]
fn test_generate_report_all_severities() {
    let vulns = vec![
        vuln("a", "a", "CVE-1", Severity::Critical, None),
        vuln("b", "b", "CVE-2", Severity::High, None),
        vuln("c", "c", "CVE-3", Severity::Medium, None),
        vuln("d", "d", "CVE-4", Severity::Low, None),
    ];
    let report = generate_report(vulns);
    assert_eq!(report.total_vulnerabilities, 4);
    assert_eq!(report.critical, 1);
    assert_eq!(report.high, 1);
    assert_eq!(report.medium, 1);
    assert_eq!(report.low, 1);
}

#[test]
fn report_counts_sum_to_total() {
    let vulns = vec![
        vuln("a", "a", "CVE-1", Severity::Critical, None),
        vuln("b", "b", "CVE-2", Severity::Critical, None),
        vuln("c", "c", "CVE-3", Severity::Low, None),
    ];
    let r = generate_report(vulns);
    assert_eq!(r.critical + r.high + r.medium + r.low, r.total_vulnerabilities);
}

#[test]
fn test_extract_severity_variants() {
    assert_eq!(extract_severity(Some("CRITICAL")), Severity::Critical);
    assert_eq!(extract_severity(Some("HIGH")), Severity::High);
    assert_eq!(extract_severity(Some("MEDIUM")), Severity::Medium);
    assert_eq!(extract_severity(Some("LOW")), Severity::Low);
    assert_eq!(extract_severity(Some("UNKNOWN")), Severity::Medium);
    assert_eq!(extract_severity(None), Severity::Medium);
}

#[test]
fn extract_severity_ignores_case() {
    assert_eq!(extract_severity(Some("critical")), Severity::Critical);
    assert_eq!(extract_severity(Some("High")), Severity::High);
}

#[test]
fn test_extract_fixed_version() {
    let fixed = vec![Some("2.11.0".to_string())];
    assert_eq!(extract_fixed_version(Some(&fixed), "2.10.0"), Some("2.11.0".to_string()));

    let fixed = vec![Some("1.0.0".to_string())];
    assert_eq!(extract_fixed_version(Some(&fixed), "2.10.0"), None);

    assert_eq!(extract_fixed_version(None, "2.10.0"), None);

    let fixed: Vec<Option<String>> = vec![];
    assert_eq!(extract_fixed_version(Some(&fixed), "2.10.0"), None);

    let fixed = vec![None];
    assert_eq!(extract_fixed_version(Some(&fixed), "2.10.0"), None);
}

#[test]
fn test_severity_clone() {
    let s = Severity::Critical;
    let s2 = s.clone();
    assert_eq!(s, s2);
}

#[test]
fn test_vulnerability_clone() {
    let v = Vulnerability {
        group: "g".to_string(),
        artifact: "a".to_string(),
        current_version: "1.0".to_string(),
        cve_id: "CVE-1".to_string(),
        severity: Severity::High,
        description: "d".to_string(),
        fixed_version: Some("2.0".to_string()),
    };
    let v2 = v.clone();
    assert_eq!(v.cve_id, v2.cve_id);
    assert_eq!(v.severity, v2.severity);
}

#[test]
fn vulnerability_from_osv_defaults() {
    let entry = OsvEntry { id: None, summary: None, severity_score: None, fixed: None };
    let v = vulnerability_from_osv("g", "a", "1.0", &entry);
    assert_eq!(v.cve_id, "unknown");
    assert_eq!(v.description, "No description");
    assert_eq!(v.severity, Severity::Medium);
    assert_eq!(v.fixed_version, None);
    assert_eq!(v.group, "g");
    assert_eq!(v.artifact, "a");
}

#[test]
fn vulnerability_from_osv_fields() {
    let entry = OsvEntry {
        id: Some("GHSA-1".to_string()),
        summary: Some("bad".to_string()),
        severity_score: Some("high".to_string()),
        fixed: Some(vec![Some("0.9".to_string()), Some("1.5".to_string())]),
    };
    let v = vulnerability_from_osv("g", "a", "1.0", &entry);
    assert_eq!(v.cve_id, "GHSA-1");
    assert_eq!(v.description, "bad");
    assert_eq!(v.severity, Severity::High);
    assert_eq!(v.fixed_version, Some("1.5".to_string()));
}

#[test]
fn osv_query_text() {
    assert_eq!(
        osv_query("com.google.code.gson", "gson", "2.10.0"),
        "{\"package\":{\"name\":\"gson\",\"ecosystem\":\"Maven\",\"namespace\":\"com.google.code.gson\"},\"version\":\"2.10.0\"}"
    );
}

#[test]
fn sort_by_severity_is_stable_descending() {
    let sorted = sort_by_severity(vec![
        vuln("a", "a", "CVE-1", Severity::Low, None),
        vuln("b", "b", "CVE-2", Severity::Critical, None),
        vuln("c", "c", "CVE-3", Severity::Low, None),
        vuln("d", "d", "CVE-4", Severity::High, None),
    ]);
    let ids: Vec<&str> = sorted.iter().map(|v| v.cve_id.as_str()).collect();
    assert_eq!(ids, vec!["CVE-2", "CVE-4", "CVE-1", "CVE-3"]);
}

#[test]
fn severity_table_of_uppercase_scores() {
    assert_eq!(severity_of_uppercase("CRITICAL"), Severity::Critical);
    assert_eq!(severity_of_uppercase("LOW"), Severity::Low);
    assert_eq!(severity_of_uppercase("low"), Severity::Medium);
}
