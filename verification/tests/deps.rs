use jex_core::deps::{
    add_to_config, empty_lock, full_coordinate, init_config, project_name_from_toml, remove_from_config,
    strip_quotes, update_lock_file, update_targets, why_message, DepMap, LockFile, ProjectConfig, ProjectInfo,
    TOMLValue,
};

fn config_with(deps: &[(&str, &str)]) -> ProjectConfig {
    let mut m = DepMap::new();
    for (k, v) in deps {
        m.insert(k.to_string(), v.to_string());
    }
    ProjectConfig {
        project: Some(ProjectInfo { name: "test".to_string(), java: None, main: None }),
        dependencies: Some(m),
        repositories: None,
        build: None,
    }
}

#[test]
fn test_update_lock_file() {
    let config = config_with(&[("com.google.code.gson:gson", "2.11.0"), ("org.slf4j:slf4j-api", "2.0.9")]);
    let lock = update_lock_file(&config).unwrap();
    let deps = lock.dependencies.unwrap();
    assert_eq!(deps.get("com.google.code.gson:gson").unwrap(), "2.11.0");
    assert_eq!(deps.get("org.slf4j:slf4j-api").unwrap(), "2.0.9");
    assert_eq!(lock.lockfile_version, Some(1));
}

#[test]
fn test_update_lock_file_empty_deps() {
    let config = ProjectConfig { project: None, dependencies: None, repositories: None, build: None };
    let lock = update_lock_file(&config).unwrap();
    assert_eq!(lock.lockfile_version, Some(1));
    assert!(lock.dependencies.unwrap().is_empty());
}

#[test]
fn test_why_not_found() {
    let lock = LockFile { lockfile_version: Some(1), dependencies: Some(DepMap::new()) };
    let result = why_message(&lock, "com.example:missing");
    assert!(result.is_ok());
    assert_eq!(result.unwrap(), "未找到依赖: com.example:missing");
}

#[test]
fn test_lock_file_empty() {
    let lock = empty_lock();
    assert_eq!(lock.lockfile_version, Some(1));
    assert!(lock.dependencies.unwrap().is_empty());
}

#[test]
fn test_init_creates_jex_toml() {
    let config = init_config(Some("my-project"));
    let project = config.project.as_ref().unwrap();
    assert_eq!(project.name, "my-project");
    assert_eq!(project.java.as_deref(), Some("21"));
    let build = config.build.as_ref().unwrap();
    assert_eq!(build.sources.as_ref().unwrap(), &vec!["src".to_string()]);
    let repos = config.repositories.as_ref().unwrap();
    assert_eq!(repos[0].0, "maven-central");
    assert!(matches!(repos[0].1, TOMLValue::Bool(true)));
}

#[test]
fn test_init_default_name() {
    assert_eq!(init_config(None).project.unwrap().name, "demo");
}

#[test]
fn why_found_message() {
    let mut d = DepMap::new();
    d.insert("org.junit.jupiter:junit-jupiter".to_string(), "5.10.0".to_string());
    let lock = LockFile { lockfile_version: Some(1), dependencies: Some(d) };
    assert_eq!(
        why_message(&lock, "org.junit.jupiter:junit-jupiter:5.10.0").unwrap(),
        "org.junit.jupiter:junit-jupiter 5.10.0 被直接依赖（在 jex.toml 中声明）"
    );
    assert!(why_message(&lock, "nocolon").is_err());
}

#[test]
fn add_and_remove_dependency() {
    let mut config = init_config(Some("x"));
    let full = full_coordinate("com.google.code.gson:gson:2.11.0").unwrap();
    assert_eq!(full, "com.google.code.gson:gson");
    add_to_config(&mut config, &full, "2.11.0");
    assert_eq!(config.dependencies.as_ref().unwrap().get("com.google.code.gson:gson").unwrap(), "2.11.0");
    assert_eq!(remove_from_config(&mut config, "com.google.code.gson:gson").unwrap(), "com.google.code.gson:gson");
    assert!(config.dependencies.as_ref().unwrap().is_empty());
    assert_eq!(
        remove_from_config(&mut config, "com.google.code.gson:gson").unwrap_err().message(),
        "未找到依赖: com.google.code.gson:gson"
    );
}

#[test]
fn update_targets_one_or_all() {
    let config = config_with(&[("a:b", "1"), ("c:d", "2")]);
    assert_eq!(update_targets(&config, None).unwrap(), vec!["a:b".to_string(), "c:d".to_string()]);
    assert_eq!(update_targets(&config, Some("c:d:9")).unwrap(), vec!["c:d".to_string()]);
    assert!(update_targets(&config, Some("e:f")).is_err());
}

#[test]
fn dep_map_insert_get_remove() {
    let mut m = DepMap::new();
    assert_eq!(m.insert("k".to_string(), "1".to_string()), None);
    assert_eq!(m.insert("k".to_string(), "2".to_string()), Some("1".to_string()));
    assert_eq!(m.len(), 1);
    assert_eq!(m.get("k").unwrap(), "2");
    assert!(m.contains_key("k"));
    assert_eq!(m.remove("k"), Some("2".to_string()));
    assert!(!m.contains_key("k"));
    assert_eq!(m.remove("k"), None);
}

#[test]
fn project_name_from_toml_text() {
    assert_eq!(project_name_from_toml("[project]\nname = \"demo-app\"\njava = \"21\"\n"), "demo-app");
    assert_eq!(project_name_from_toml("[project]\njava = \"21\"\n"), "project");
    assert_eq!(strip_quotes("\"\"x\"\""), "x");
}
