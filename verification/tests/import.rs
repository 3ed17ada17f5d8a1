use jex_core::deps::DepMap;
use jex_core::import::{describe_imported, merge_with_existing, parse_pom_content, pom_to_jex_coords, PomDependency};

const HEADER: &str = "<?xml version=\"1.0\" encoding=\"UTF-8\"?>\n<project xmlns=\"http://maven.apache.org/POM/4.0.0\">\n    <modelVersion>4.0.0</modelVersion>\n";

#[test]
fn test_parse_pom_simple() {
    let xml = format!(
        "{}    <dependencies>\n        <dependency>\n            <groupId>com.google.code.gson</groupId>\n            <artifactId>gson</artifactId>\n            <version>2.11.0</version>\n        </dependency>\n    </dependencies>\n</project>",
        HEADER
    );
    let deps = parse_pom_content(&xml).unwrap();
    assert_eq!(deps.len(), 1);
    assert_eq!(deps[0].group_id, "com.google.code.gson");
    assert_eq!(deps[0].artifact_id, "gson");
    assert_eq!(deps[0].version.as_deref(), Some("2.11.0"));
}

#[test]
fn test_parse_pom_with_dependency_management() {
    let xml = format!(
        "{}    <dependencyManagement>\n        <dependencies>\n            <dependency>\n                <groupId>com.google.code.gson</groupId>\n                <artifactId>gson</artifactId>\n                <version>2.10.0</version>\n            </dependency>\n        </dependencies>\n    </dependencyManagement>\n    <dependencies>\n        <dependency>\n            <groupId>com.google.code.gson</groupId>\n            <artifactId>gson</artifactId>\n        </dependency>\n    </dependencies>\n</project>",
        HEADER
    );
    let deps = parse_pom_content(&xml).unwrap();
    assert_eq!(deps.len(), 1);
    assert_eq!(deps[0].version.as_deref(), Some("2.10.0"));
}

#[test]
fn test_parse_pom_scope_filtering() {
    let xml = format!(
        "{}    <dependencies>\n        <dependency>\n            <groupId>com.google.code.gson</groupId>\n            <artifactId>gson</artifactId>\n            <version>2.11.0</version>\n        </dependency>\n        <dependency>\n            <groupId>junit</groupId>\n            <artifactId>junit</artifactId>\n            <version>4.13.2</version>\n            <scope>test</scope>\n        </dependency>\n    </dependencies>\n</project>",
        HEADER
    );
    let deps = parse_pom_content(&xml).unwrap();
    assert_eq!(deps.len(), 1);
    assert_eq!(deps[0].artifact_id, "gson");
}

#[test]
fn test_parse_pom_empty() {
    let xml = format!("{}</project>", HEADER);
    let deps = parse_pom_content(&xml).unwrap();
    assert!(deps.is_empty());
}

#[test]
fn test_pom_to_jex_coords() {
    let deps = vec![
        PomDependency {
            group_id: "com.google.code.gson".to_string(),
            artifact_id: "gson".to_string(),
            version: Some("2.11.0".to_string()),
            scope: None,
        },
        PomDependency {
            group_id: "org.slf4j".to_string(),
            artifact_id: "slf4j-api".to_string(),
            version: None,
            scope: None,
        },
    ];
    let coords = pom_to_jex_coords(&deps);
    assert_eq!(coords.len(), 1);
    assert_eq!(coords[0], "com.google.code.gson:gson:2.11.0");
}

#[test]
fn test_merge_with_existing_no_conflict() {
    let imported = vec![
        "com.google.code.gson:gson:2.11.0".to_string(),
        "org.slf4j:slf4j-api:2.0.9".to_string(),
    ];
    let existing = DepMap::new();
    let (merged, warnings) = merge_with_existing(&imported, &existing);
    assert_eq!(merged.len(), 2);
    assert_eq!(merged.get("com.google.code.gson:gson").unwrap(), "2.11.0");
    assert!(warnings.is_empty());
}

#[test]
fn test_merge_with_existing_conflict() {
    let imported = vec!["com.google.code.gson:gson:2.11.0".to_string()];
    let mut existing = DepMap::new();
    existing.insert("com.google.code.gson:gson".to_string(), "2.10.0".to_string());
    let (merged, warnings) = merge_with_existing(&imported, &existing);
    assert_eq!(merged.len(), 1);
    assert_eq!(merged.get("com.google.code.gson:gson").unwrap(), "2.10.0");
    assert_eq!(
        warnings,
        vec!["⚠ com.google.code.gson:gson 版本冲突：现有 2.10.0，导入 2.11.0（保留现有版本）".to_string()]
    );
}

#[test]
fn test_parse_pom_multiple_deps() {
    let xml = format!(
        "{}    <dependencies>\n        <dependency>\n            <groupId>com.google.code.gson</groupId>\n            <artifactId>gson</artifactId>\n            <version>2.11.0</version>\n        </dependency>\n        <dependency>\n            <groupId>org.slf4j</groupId>\n            <artifactId>slf4j-api</artifactId>\n            <version>2.0.9</version>\n        </dependency>\n        <dependency>\n            <groupId>org.apache.commons</groupId>\n            <artifactId>commons-lang3</artifactId>\n            <version>3.14.0</version>\n        </dependency>\n    </dependencies>\n</project>",
        HEADER
    );
    let deps = parse_pom_content(&xml).unwrap();
    assert_eq!(deps.len(), 3);
    assert_eq!(deps[0].artifact_id, "gson");
    assert_eq!(deps[1].artifact_id, "slf4j-api");
    assert_eq!(deps[2].artifact_id, "commons-lang3");
}

#[test]
fn test_merge_with_existing_add_new() {
    let imported = vec![
        "com.google.code.gson:gson:2.11.0".to_string(),
        "org.slf4j:slf4j-api:2.0.9".to_string(),
        "org.apache.commons:commons-lang3:3.14.0".to_string(),
    ];
    let mut existing = DepMap::new();
    existing.insert("com.google.code.gson:gson".to_string(), "2.10.0".to_string());
    let (merged, _) = merge_with_existing(&imported, &existing);
    assert_eq!(merged.len(), 3);
    assert_eq!(merged.get("com.google.code.gson:gson").unwrap(), "2.10.0");
    assert_eq!(merged.get("org.slf4j:slf4j-api").unwrap(), "2.0.9");
    assert_eq!(merged.get("org.apache.commons:commons-lang3").unwrap(), "3.14.0");
}

#[test]
fn test_merge_with_existing_invalid_coord() {
    let imported = vec!["invalid-coord".to_string()];
    let existing = DepMap::new();
    let (merged, _) = merge_with_existing(&imported, &existing);
    assert!(merged.is_empty());
}

#[test]
fn test_parse_pom_missing_dependencies_section() {
    let xml = format!("{}    <groupId>com.example</groupId>\n    <artifactId>my-app</artifactId>\n</project>", HEADER);
    let deps = parse_pom_content(&xml).unwrap();
    assert!(deps.is_empty());
}

#[test]
fn parse_pom_malformed_is_error() {
    assert!(parse_pom_content("<project><dependencies></project>").is_err());
}

#[test]
fn parse_pom_error_at_a_field_ends_the_reading() {
    let pom = "<project><dependencies>\
        <dependency><groupId>g</groupId><artifactId>a</artifactId><version>1</version></dependency>\
        <dependency><groupId></oops><artifactId>b</artifactId><version>2</version></dependency>\
        </dependencies></project>";
    let deps = parse_pom_content(pom).unwrap();
    assert_eq!(deps.len(), 1);
    assert_eq!(deps[0].artifact_id, "a");
}

#[test]
fn describe_imported_lines() {
    let deps = vec![
        PomDependency {
            group_id: "g".to_string(),
            artifact_id: "a".to_string(),
            version: Some("1".to_string()),
            scope: Some("runtime".to_string()),
        },
        PomDependency { group_id: "h".to_string(), artifact_id: "b".to_string(), version: None, scope: None },
    ];
    assert_eq!(
        describe_imported(&deps),
        vec![
            "  ✅ g:a:1".to_string(),
            "    （scope=runtime，已跳过）".to_string(),
            "  ⚠ h:b（无版本号，需手动指定）".to_string(),
        ]
    );
}
