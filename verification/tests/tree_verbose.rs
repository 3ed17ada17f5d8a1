use jex_core::audit::{Severity, Vulnerability};
use jex_core::license::{LicenseCategory, LicenseInfo};
use jex_core::tree_verbose::{filter_report, render_verbose, tree_verbose, TreeNode, TreeReport, VulnSummary};

fn node(name: &str, group: &str, artifact: &str, version: &str, license: &str, category: &str) -> TreeNode {
    TreeNode {
        name: name.to_string(),
        group: group.to_string(),
        artifact: artifact.to_string(),
        version: version.to_string(),
        license: license.to_string(),
        license_category: category.to_string(),
        vulnerabilities: vec![],
    }
}

#[test]
fn test_tree_report_empty() {
    let report = TreeReport { nodes: vec![] };
    assert!(report.nodes.is_empty());
    let out = render_verbose(&report);
    assert!(out.contains("Root"));
    assert!(out.contains("0 dependencies"));
    assert!(out.contains("Vulnerabilities: None"));
}

#[test]
fn test_tree_node_basic() {
    let n = node("serde:serde", "serde", "serde", "1.0.0", "MIT", "Permissive");
    assert_eq!(n.name, "serde:serde");
    assert_eq!(n.version, "1.0.0");
    assert_eq!(n.license, "MIT");
    assert!(n.vulnerabilities.is_empty());
}

#[test]
fn test_vuln_summary() {
    let vuln = VulnSummary {
        cve_id: "CVE-2024-1234".to_string(),
        severity: "HIGH".to_string(),
        fixed_version: Some("2.0.0".to_string()),
    };
    assert_eq!(vuln.cve_id, "CVE-2024-1234");
    assert_eq!(vuln.severity, "HIGH");
    assert_eq!(vuln.fixed_version.as_deref(), Some("2.0.0"));
}

#[test]
fn test_filter_report_by_name() {
    let report = TreeReport {
        nodes: vec![
            node("com.google.code.gson:gson", "com.google.code.gson", "gson", "2.11.0", "Apache-2.0", "Permissive"),
            node("org.junit.jupiter:junit-jupiter", "org.junit.jupiter", "junit-jupiter", "5.10.0", "EPL-2.0", "Permissive"),
        ],
    };
    let filtered = filter_report(&report, "gson");
    assert_eq!(filtered.nodes.len(), 1);
    assert_eq!(filtered.nodes[0].artifact, "gson");
}

#[test]
fn test_filter_report_by_license() {
    let report = TreeReport {
        nodes: vec![
            node("a:a", "a", "a", "1.0.0", "MIT", "Permissive"),
            node("b:b", "b", "b", "2.0.0", "GPL-3.0", "Strong Copyleft"),
        ],
    };
    let filtered = filter_report(&report, "Permissive");
    assert_eq!(filtered.nodes.len(), 1);
    assert_eq!(filtered.nodes[0].license_category, "Permissive");
}

#[test]
fn test_render_verbose_with_nodes() {
    let mut n = node("com.google.code.gson:gson", "com.google.code.gson", "gson", "2.11.0", "Apache-2.0", "Permissive");
    n.vulnerabilities = vec![VulnSummary {
        cve_id: "CVE-2024-0001".to_string(),
        severity: "MEDIUM".to_string(),
        fixed_version: Some("2.12.0".to_string()),
    }];
    let report = TreeReport { nodes: vec![n] };
    let output = render_verbose(&report);
    assert!(output.contains("Root"));
    assert!(output.contains("gson"));
    assert!(output.contains("Apache-2.0"));
    assert!(output.contains("CVE-2024-0001"));
    assert!(output.contains("Permissive"));
    assert!(output.contains("1 dependencies"));
}

#[test]
fn test_render_verbose_no_vulns() {
    let report = TreeReport { nodes: vec![node("org.example:lib", "org.example", "lib", "1.0.0", "MIT", "Permissive")] };
    let output = render_verbose(&report);
    assert!(output.contains("No known vulnerabilities"));
}

#[test]
fn test_filter_case_insensitive() {
    let report = TreeReport { nodes: vec![node("COM.GOOGLE:GSON", "COM.GOOGLE", "GSON", "2.11.0", "Apache-2.0", "Permissive")] };
    let filtered = filter_report(&report, "gson");
    assert_eq!(filtered.nodes.len(), 1);
}

#[test]
fn tree_verbose_joins_licenses_and_vulns() {
    let deps = vec![
        ("com.google.code.gson:gson".to_string(), "2.10.0".to_string()),
        ("bad".to_string(), "1".to_string()),
        ("org.x:y".to_string(), "3".to_string()),
    ];
    let licenses = vec![LicenseInfo {
        group: "com.google.code.gson".to_string(),
        artifact: "gson".to_string(),
        version: "2.10.0".to_string(),
        license: "Apache License 2.0".to_string(),
        spdx_id: "Apache-2.0".to_string(),
        category: LicenseCategory::Permissive,
    }];
    let vulns = vec![Vulnerability {
        group: "com.google.code.gson".to_string(),
        artifact: "gson".to_string(),
        current_version: "2.10.0".to_string(),
        cve_id: "CVE-2022-25647".to_string(),
        severity: Severity::High,
        description: "d".to_string(),
        fixed_version: Some("2.11.0".to_string()),
    }];
    let r = tree_verbose(&deps, &licenses, &vulns).unwrap();
    assert_eq!(r.nodes.len(), 2);
    assert_eq!(r.nodes[0].license, "Apache License 2.0");
    assert_eq!(r.nodes[0].license_category, "Permissive");
    assert_eq!(r.nodes[0].vulnerabilities.len(), 1);
    assert_eq!(r.nodes[0].vulnerabilities[0].severity, "HIGH");
    assert_eq!(r.nodes[1].license, "Unknown");
    assert_eq!(r.nodes[1].license_category, "Unknown");
}
