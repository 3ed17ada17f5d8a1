use jex_core::audit::{Severity, Vulnerability};
use jex_core::license::{LicenseCategory, LicenseInfo};
use jex_core::outdated::OutdatedDep;
use jex_core::report::{generate_report, render_report, DependencyReport, ReportSummary};
use jex_core::tree::{DependencyNode, DependencyTree};

fn empty_tree() -> DependencyTree {
    DependencyTree {
        root: DependencyNode { name: "root".to_string(), version: "".to_string(), license: None, children: Vec::new() },
    }
}

fn summary(total: usize, outdated: usize, vulns: usize, issues: usize) -> ReportSummary {
    ReportSummary {
        total_dependencies: total,
        outdated_count: outdated,
        vulnerability_count: vulns,
        license_issues: issues,
    }
}

#[test]
fn test_report_summary() {
    let s = summary(10, 2, 1, 0);
    assert_eq!(s.total_dependencies, 10);
    assert_eq!(s.outdated_count, 2);
    assert_eq!(s.vulnerability_count, 1);
    assert_eq!(s.license_issues, 0);
}

#[test]
fn test_report_summary_zero() {
    let s = summary(0, 0, 0, 0);
    assert_eq!(s.total_dependencies, 0);
    assert_eq!(s.outdated_count, 0);
}

#[test]
fn test_render_report_empty() {
    let report = DependencyReport {
        summary: summary(0, 0, 0, 0),
        outdated: Vec::new(),
        vulnerabilities: Vec::new(),
        licenses: Vec::new(),
        tree: empty_tree(),
    };
    let output = render_report(&report);
    assert!(output.contains("项目依赖分析报告"));
    assert!(output.contains("总依赖数: 0"));
    assert!(output.contains("可更新: 0"));
    assert!(output.contains("安全漏洞: 0"));
    assert!(output.contains("许可证问题: 0"));
}

#[test]
fn test_render_report_with_outdated() {
    let report = DependencyReport {
        summary: summary(2, 1, 0, 0),
        outdated: vec![OutdatedDep {
            group: "com.google.code.gson".to_string(),
            artifact: "gson".to_string(),
            current: "2.10.0".to_string(),
            latest: "2.11.0".to_string(),
        }],
        vulnerabilities: Vec::new(),
        licenses: Vec::new(),
        tree: empty_tree(),
    };
    let output = render_report(&report);
    assert!(output.contains("可更新依赖"));
    assert!(output.contains("gson"));
    assert!(output.contains("2.10.0"));
    assert!(output.contains("2.11.0"));
}

#[test]
fn test_render_report_with_vulns() {
    let report = DependencyReport {
        summary: summary(1, 0, 1, 0),
        outdated: Vec::new(),
        vulnerabilities: vec![Vulnerability {
            group: "org.apache.logging.log4j".to_string(),
            artifact: "log4j-core".to_string(),
            current_version: "2.14.0".to_string(),
            cve_id: "CVE-2021-44228".to_string(),
            severity: Severity::Critical,
            description: "Log4Shell".to_string(),
            fixed_version: None,
        }],
        licenses: Vec::new(),
        tree: empty_tree(),
    };
    let output = render_report(&report);
    assert!(output.contains("安全漏洞"));
    assert!(output.contains("log4j-core"));
    assert!(output.contains("CVE-2021-44228"));
}

#[test]
fn test_render_report_with_licenses() {
    let report = DependencyReport {
        summary: summary(1, 0, 0, 0),
        outdated: Vec::new(),
        vulnerabilities: Vec::new(),
        licenses: vec![LicenseInfo {
            group: "com.google.code.gson".to_string(),
            artifact: "gson".to_string(),
            version: "2.11.0".to_string(),
            license: "Apache-2.0".to_string(),
            spdx_id: "Apache-2.0".to_string(),
            category: LicenseCategory::Permissive,
        }],
        tree: empty_tree(),
    };
    let output = render_report(&report);
    assert!(output.contains("许可证分布"));
    assert!(output.contains("Apache-2.0"));
}

#[test]
fn test_render_report_with_all_sections() {
    let report = DependencyReport {
        summary: summary(3, 1, 1, 1),
        outdated: vec![OutdatedDep {
            group: "a".to_string(),
            artifact: "b".to_string(),
            current: "1.0".to_string(),
            latest: "2.0".to_string(),
        }],
        vulnerabilities: vec![Vulnerability {
            group: "c".to_string(),
            artifact: "d".to_string(),
            current_version: "1.0".to_string(),
            cve_id: "CVE-1".to_string(),
            severity: Severity::High,
            description: "test".to_string(),
            fixed_version: None,
        }],
        licenses: vec![LicenseInfo {
            group: "e".to_string(),
            artifact: "f".to_string(),
            version: "1.0".to_string(),
            license: "MIT".to_string(),
            spdx_id: "MIT".to_string(),
            category: LicenseCategory::Permissive,
        }],
        tree: empty_tree(),
    };
    let output = render_report(&report);
    assert!(output.contains("总依赖数: 3"));
    assert!(output.contains("可更新: 1"));
    assert!(output.contains("安全漏洞: 1"));
    assert!(output.contains("许可证问题: 1"));
}

#[test]
fn generate_report_counts() {
    let tree = DependencyTree {
        root: DependencyNode {
            name: "root".to_string(),
            version: "".to_string(),
            license: None,
            children: vec![
                DependencyNode { name: "a:b".to_string(), version: "1".to_string(), license: None, children: vec![] },
                DependencyNode { name: "c:d".to_string(), version: "2".to_string(), license: None, children: vec![] },
            ],
        },
    };
    let licenses = vec![
        LicenseInfo {
            group: "a".to_string(),
            artifact: "b".to_string(),
            version: "1".to_string(),
            license: "?".to_string(),
            spdx_id: "?".to_string(),
            category: LicenseCategory::Unknown,
        },
        LicenseInfo {
            group: "c".to_string(),
            artifact: "d".to_string(),
            version: "2".to_string(),
            license: "MIT".to_string(),
            spdx_id: "MIT".to_string(),
            category: LicenseCategory::Permissive,
        },
    ];
    let r = generate_report(vec![], vec![], licenses, tree).unwrap();
    assert_eq!(r.summary.total_dependencies, 2);
    assert_eq!(r.summary.outdated_count, 0);
    assert_eq!(r.summary.vulnerability_count, 0);
    assert_eq!(r.summary.license_issues, 1);
}
