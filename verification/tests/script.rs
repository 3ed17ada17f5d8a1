use jex_core::script::{parse_script_content, ScriptMeta};

fn parse(text: &str) -> ScriptMeta {
    parse_script_content(&format!("{}\n", text))
}

#[test]
fn test_parse_shebang() {
    let meta = parse("#!/usr/bin/env jex\n\nimport java.util.List;\n\npublic class Main {}");
    assert!(meta.is_script);
    assert!(meta.deps.is_empty());
    assert!(meta.java_version.is_none());
}

#[test]
fn test_parse_deps() {
    let meta = parse("//DEPS com.google.code.gson:gson:2.11.0\n//DEPS org.apache.commons:commons-lang3:3.14.0\n\nimport com.google.gson.Gson;\n\npublic class Main {}");
    assert!(meta.is_script);
    assert_eq!(meta.deps.len(), 2);
    assert_eq!(meta.deps[0], "com.google.code.gson:gson:2.11.0");
    assert_eq!(meta.deps[1], "org.apache.commons:commons-lang3:3.14.0");
}

#[test]
fn test_parse_java_version() {
    let meta = parse("//JAVA 21\n\nimport java.util.List;\n\npublic class Main {}");
    assert!(meta.is_script);
    assert_eq!(meta.java_version.as_deref(), Some("21"));
}

#[test]
fn test_parse_combined() {
    let meta = parse("///usr/bin/env jex\n//DEPS com.google.code.gson:gson:2.11.0\n//JAVA 21\n\nimport com.google.gson.Gson;\n\npublic class Main {}");
    assert!(meta.is_script);
    assert_eq!(meta.deps.len(), 1);
    assert_eq!(meta.java_version.as_deref(), Some("21"));
}

#[test]
fn test_parse_non_script() {
    let meta = parse("import java.util.List;\n\npublic class Main {}");
    assert!(!meta.is_script);
    assert!(meta.deps.is_empty());
    assert!(meta.java_version.is_none());
}

#[test]
fn test_parse_empty_deps() {
    let meta = parse("//DEPS \n\nimport java.util.List;");
    assert!(!meta.is_script);
    assert!(meta.deps.is_empty());
}

#[test]
fn test_parse_shebang_jbang_style() {
    let meta = parse("///usr/bin/env jex\n//DEPS com.google.code.gson:gson:2.11.0\n//JAVA 21\n\nimport com.google.gson.Gson;\n\npublic class Main {}");
    assert!(meta.is_script);
    assert_eq!(meta.deps.len(), 1);
    assert_eq!(meta.deps[0], "com.google.code.gson:gson:2.11.0");
    assert_eq!(meta.java_version.as_deref(), Some("21"));
}

#[test]
fn test_parse_shebang_hashbang_style() {
    let meta = parse("#!/usr/bin/env jex\n//DEPS org.apache.commons:commons-lang3:3.14.0\n\nimport org.apache.commons.lang3.StringUtils;\n\npublic class Main {}");
    assert!(meta.is_script);
    assert_eq!(meta.deps.len(), 1);
    assert_eq!(meta.deps[0], "org.apache.commons:commons-lang3:3.14.0");
}

#[test]
fn test_parse_multiple_deps() {
    let meta = parse("//DEPS com.google.code.gson:gson:2.11.0\n//DEPS org.apache.commons:commons-lang3:3.14.0\n//DEPS com.google.guava:guava:33.0.0-jre\n\nimport com.google.gson.Gson;\n\npublic class Main {}");
    assert!(meta.is_script);
    assert_eq!(meta.deps.len(), 3);
}

#[test]
fn test_non_script_file() {
    let meta = parse("import java.util.List;\n\npublic class Main {}");
    assert!(!meta.is_script);
}

#[test]
fn script_meta_default_is_not_script() {
    let meta = ScriptMeta::default();
    assert!(!meta.is_script);
    assert!(meta.deps.is_empty());
}
