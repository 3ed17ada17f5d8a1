use jex_core::deps::DepMap;
use jex_core::export::pom_xml;
use jex_core::util::parse_coord;

#[test]
fn test_generate_pom_xml_content() {
    let pom = pom_xml(Some("test-app"), &DepMap::new());
    assert!(pom.contains("test-app"));
    assert!(pom.contains("local.test-app"));
    assert!(pom.contains("0.1.0"));
    assert!(pom.contains("<packaging>jar</packaging>"));
    assert!(pom.contains("    <groupId>local.test-app</groupId>\n"));
    assert!(pom.contains("    <artifactId>test-app</artifactId>\n"));
}

#[test]
fn test_parse_coord_for_export() {
    let (g, a) = parse_coord("com.google.code.gson:gson").unwrap();
    assert_eq!(g, "com.google.code.gson");
    assert_eq!(a, "gson");
}

#[test]
fn test_parse_coord_invalid_for_export() {
    assert!(parse_coord("invalid").is_err());
}

#[test]
fn pom_xml_lists_dependencies_in_order() {
    let mut deps = DepMap::new();
    deps.insert("com.google.code.gson:gson".to_string(), "2.11.0".to_string());
    deps.insert("bad".to_string(), "1".to_string());
    deps.insert("org.slf4j:slf4j-api".to_string(), "2.0.9".to_string());
    let pom = pom_xml(None, &deps);
    assert!(pom.contains("<groupId>local.demo</groupId>"));
    let gson = pom.find("<artifactId>gson</artifactId>").unwrap();
    let slf = pom.find("<artifactId>slf4j-api</artifactId>").unwrap();
    assert!(gson < slf);
    assert!(pom.contains("            <version>2.11.0</version>\n"));
    assert!(!pom.contains("<version>1</version>"));
    assert!(pom.ends_with("    </dependencies>\n</project>\n"));
}
