use jex_core::deps::init_config;
use jex_core::outdated::{check_outdated, upgrade_all, upgrade_dep, OutdatedDep, UpgradeOutcome};

#[test]
fn test_outdated_dep_struct() {
    let dep = OutdatedDep {
        group: "com.google.code.gson".to_string(),
        artifact: "gson".to_string(),
        current: "2.10.0".to_string(),
        latest: "2.11.0".to_string(),
    };
    assert_eq!(dep.group, "com.google.code.gson");
    assert_eq!(dep.artifact, "gson");
    assert_eq!(dep.current, "2.10.0");
    assert_eq!(dep.latest, "2.11.0");
}

#[test]
fn check_outdated_keeps_changed_versions() {
    let resolved = vec![
        ("com.google.code.gson:gson".to_string(), "2.10.0".to_string(), Some("2.11.0".to_string())),
        ("org.slf4j:slf4j-api".to_string(), "2.0.9".to_string(), Some("2.0.9".to_string())),
        ("x:y".to_string(), "1".to_string(), None),
    ];
    let out = check_outdated(&resolved).unwrap();
    assert_eq!(out.len(), 1);
    assert_eq!(out[0].group, "com.google.code.gson");
    assert_eq!(out[0].artifact, "gson");
    assert_eq!(out[0].current, "2.10.0");
    assert_eq!(out[0].latest, "2.11.0");
}

#[test]
fn upgrade_dep_outcomes() {
    let mut config = init_config(Some("demo"));
    assert_eq!(upgrade_dep(&mut config, "a:b", "1.0"), UpgradeOutcome::Added);
    assert_eq!(upgrade_dep(&mut config, "a:b", "1.0"), UpgradeOutcome::AlreadyLatest);
    assert_eq!(upgrade_dep(&mut config, "a:b", "2.0"), UpgradeOutcome::Upgraded("1.0".to_string()));
    let deps = config.dependencies.as_ref().unwrap();
    assert_eq!(deps.get("a:b").unwrap(), "2.0");
}

#[test]
fn upgrade_all_sets_latest() {
    let mut config = init_config(Some("demo"));
    upgrade_dep(&mut config, "g:a", "1");
    let outdated = vec![OutdatedDep {
        group: "g".to_string(),
        artifact: "a".to_string(),
        current: "1".to_string(),
        latest: "3".to_string(),
    }];
    upgrade_all(&mut config, &outdated);
    assert_eq!(config.dependencies.as_ref().unwrap().get("g:a").unwrap(), "3");
}
