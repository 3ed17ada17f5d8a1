use jex_core::changelog::{generate_changelog, simulate_old_version, ChangelogEntry, ChangelogReport};

#[test]
fn test_changelog_report_empty() {
    let report = ChangelogReport { entries: vec![] };
    assert_eq!(report.entries.len(), 0);
}

#[test]
fn test_changelog_report_with_entries() {
    let report = ChangelogReport {
        entries: vec![
            ChangelogEntry {
                dependency: "com.example:lib".to_string(),
                old_version: "1.0.0".to_string(),
                new_version: "1.1.0".to_string(),
            },
            ChangelogEntry {
                dependency: "org.test:util".to_string(),
                old_version: "2.0.0".to_string(),
                new_version: "2.1.0".to_string(),
            },
        ],
    };
    assert_eq!(report.entries.len(), 2);
    assert_eq!(report.entries[0].dependency, "com.example:lib");
    assert_eq!(report.entries[1].old_version, "2.0.0");
}

#[test]
fn test_simulate_old_version() {
    assert_eq!(simulate_old_version("1.0.0"), "1.0.0");
    assert_eq!(simulate_old_version("1.0.1"), "1.0.0");
    assert_eq!(simulate_old_version("2.3.4"), "2.3.3");
}

#[test]
fn test_simulate_old_version_two_part() {
    assert_eq!(simulate_old_version("1.0"), "1.0");
    assert_eq!(simulate_old_version("2.3"), "2.3");
}

#[test]
fn test_simulate_old_version_single() {
    assert_eq!(simulate_old_version("1"), "1");
}

#[test]
fn test_simulate_old_version_zero_patch() {
    assert_eq!(simulate_old_version("1.0.0"), "1.0.0");
    assert_eq!(simulate_old_version("3.2.0"), "3.2.0");
}

#[test]
fn test_simulate_old_version_non_numeric_patch() {
    assert_eq!(simulate_old_version("1.0.0-beta"), "1.0.0-beta");
    assert_eq!(simulate_old_version("2.0.0-SNAPSHOT"), "2.0.0-SNAPSHOT");
}

#[test]
fn simulate_old_version_large_patch() {
    assert_eq!(simulate_old_version("1.2.10"), "1.2.9");
}

#[test]
fn generate_changelog_skips_unchanged() {
    let deps = vec![
        ("a:b".to_string(), "1.0.0".to_string()),
        ("c:d".to_string(), "2.3.4".to_string()),
        ("e:f".to_string(), "1.0".to_string()),
    ];
    let r = generate_changelog(&deps).unwrap();
    assert_eq!(r.entries.len(), 1);
    assert_eq!(r.entries[0].dependency, "c:d");
    assert_eq!(r.entries[0].old_version, "2.3.3");
    assert_eq!(r.entries[0].new_version, "2.3.4");
}
