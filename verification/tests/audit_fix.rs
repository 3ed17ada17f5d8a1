use jex_core::audit_fix::{
    audit_with_fix, check_vulnerability, generate_fix_suggestion, AuditFixReport, Vulnerability,
};

#[test]
fn test_audit_fix_report() {
    let report = AuditFixReport { vulnerabilities: vec![], fixes: vec![] };
    assert!(report.vulnerabilities.is_empty());
    assert!(report.fixes.is_empty());
}

#[test]
fn test_vulnerability() {
    let vuln = Vulnerability {
        dependency: "org.apache.logging.log4j:log4j-core".to_string(),
        severity: "HIGH".to_string(),
        description: "Log4j 远程代码执行漏洞".to_string(),
        fixed_version: Some("2.17.0".to_string()),
    };
    assert_eq!(vuln.severity, "HIGH");
    assert!(vuln.fixed_version.is_some());
}

#[test]
fn check_vulnerability_flags_log4j_only() {
    let v = check_vulnerability("org.apache.logging.log4j:log4j-core", "2.14.0").unwrap();
    assert_eq!(v.dependency, "org.apache.logging.log4j:log4j-core");
    assert_eq!(v.severity, "HIGH");
    assert_eq!(v.fixed_version, Some("2.17.0".to_string()));
    assert!(check_vulnerability("org.apache.logging.log4j:log4j-api", "2.0").is_some());
    assert!(check_vulnerability("com.google.code.gson:gson", "2.10.0").is_none());
    assert!(check_vulnerability("log4j-core", "2.0").is_none());
}

#[test]
fn fix_suggestion_uses_fixed_version() {
    let v = check_vulnerability("org.apache.logging.log4j:log4j-core", "2.14.0").unwrap();
    let f = generate_fix_suggestion("org.apache.logging.log4j:log4j-core", "2.14.0", &v).unwrap();
    assert_eq!(f.current_version, "2.14.0");
    assert_eq!(f.suggested_version, "2.17.0");
    assert_eq!(f.reason, "Log4j 远程代码执行漏洞");
    let none = Vulnerability {
        dependency: "a:b".to_string(),
        severity: "LOW".to_string(),
        description: "x".to_string(),
        fixed_version: None,
    };
    assert!(generate_fix_suggestion("a:b", "1", &none).is_none());
}

#[test]
fn audit_with_fix_collects_in_order() {
    let deps = vec![
        ("com.google.code.gson:gson".to_string(), "2.10.0".to_string()),
        ("org.apache.logging.log4j:log4j-core".to_string(), "2.14.0".to_string()),
        ("org.apache.logging.log4j:log4j-api".to_string(), "2.14.1".to_string()),
    ];
    let r = audit_with_fix(&deps).unwrap();
    assert_eq!(r.vulnerabilities.len(), 2);
    assert_eq!(r.fixes.len(), 2);
    assert_eq!(r.fixes[1].dependency, "org.apache.logging.log4j:log4j-api");
    assert_eq!(r.fixes[1].current_version, "2.14.1");
}
