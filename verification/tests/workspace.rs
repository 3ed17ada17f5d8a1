use jex_core::workspace::{
    count_dependencies_in, expand_glob_pattern, sort_modules, workspace_status, workspace_template, ModuleInfo,
    WorkspaceConfig,
};

fn module(name: &str, content: &str) -> ModuleInfo {
    ModuleInfo {
        name: name.to_string(),
        path: format!("/ws/modules/{}", name),
        dependencies_count: count_dependencies_in(content),
    }
}

const MOD_A: &str = "[dependencies]\nserde = \"1.0\"\ntoml = \"0.8\"\n";
const MOD_B: &str = "[dependencies]\nreqwest = \"0.12\"\n";

#[test]
fn test_workspace_config_default() {
    let config = WorkspaceConfig::default();
    assert_eq!(config.members, vec!["crates/*".to_string()]);
}

#[test]
fn test_discover_modules() {
    let modules = sort_modules(vec![module("b", MOD_B), module("a", MOD_A)]);
    assert_eq!(modules.len(), 2);
    assert_eq!(modules[0].name, "a");
    assert_eq!(modules[0].dependencies_count, 2);
    assert_eq!(modules[1].name, "b");
    assert_eq!(modules[1].dependencies_count, 1);
}

#[test]
fn test_workspace_status() {
    let status = workspace_status("/ws", vec![module("b", MOD_B), module("a", MOD_A)]).unwrap();
    assert_eq!(status.modules.len(), 2);
    assert_eq!(status.total_dependencies, 3);
    assert_eq!(status.root, "/ws");
}

#[test]
fn test_workspace_init() {
    let content = workspace_template();
    assert!(content.contains("[workspace]"));
}

#[test]
fn count_dependencies_skips_comments_and_other_tables() {
    let content = "[project]\nname = \"x\"\n[dependencies]\n# a = \"1\"\nb = \"2\"\n  c = \"3\"\nnot a dep\n[build]\nd = \"4\"\n";
    assert_eq!(count_dependencies_in(content), 2);
    assert_eq!(count_dependencies_in(""), 0);
}

#[test]
fn expand_glob_pattern_prefix() {
    assert_eq!(expand_glob_pattern("/ws", "modules/*"), "/ws/modules");
    assert_eq!(expand_glob_pattern("/ws", "lib"), "/ws/lib");
    assert_eq!(expand_glob_pattern("/ws", "*"), "/ws/");
}
