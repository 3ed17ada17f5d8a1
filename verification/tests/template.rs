use jex_core::template::{get_template_content, list_templates, project_files, replace_str, replace_variables};

#[test]
fn test_list_templates() {
    let templates = list_templates();
    assert_eq!(templates.len(), 4);
    assert!(templates.iter().any(|t| t.name == "lib"));
    assert!(templates.iter().any(|t| t.name == "cli"));
    assert!(templates.iter().any(|t| t.name == "api"));
    assert!(templates.iter().any(|t| t.name == "web"));
}

#[test]
fn test_replace_variables() {
    let content = "Hello {{project_name}} by {{package_name}}";
    let variables = vec![
        ("project_name".to_string(), "my-app".to_string()),
        ("package_name".to_string(), "com.example".to_string()),
    ];
    let result = replace_variables(content, &variables);
    assert_eq!(result, "Hello my-app by com.example");
}

#[test]
fn test_create_project_lib() {
    let (jex_toml, main_java) = project_files("test-lib", "lib", Some("com.test")).unwrap();
    assert!(jex_toml.contains("test-lib"));
    assert!(main_java.contains("com.test"));
    assert!(!jex_toml.contains("{{"));
}

#[test]
fn test_create_project_invalid_template() {
    let result = project_files("test-invalid", "invalid", None);
    assert!(result.is_err());
    assert_eq!(result.unwrap_err().message(), "未知模板类型: invalid，可用模板: lib, cli, api, web");
}

#[test]
fn project_files_default_package() {
    let (_, main_java) = project_files("x", "cli", None).unwrap();
    assert!(main_java.contains("com.example"));
}

#[test]
fn replace_str_all_occurrences() {
    assert_eq!(replace_str("a-b-c", "-", "+"), "a+b+c");
    assert_eq!(replace_str("aaa", "aa", "b"), "ba");
    assert_eq!(replace_str("abc", "x", "y"), "abc");
    assert!(get_template_content("web").is_ok());
    assert!(get_template_content("nope").is_err());
}
