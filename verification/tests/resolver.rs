use jex_core::resolver::{
    format_tree, latest_from_versions, leaf_node, parse_pom_dependencies, pom_url, search_url,
    should_expand, split_coord, DepNode,
};

fn node(artifact: &str, version: &str, children: Vec<DepNode>) -> DepNode {
    DepNode {
        group: "g".to_string(),
        artifact: artifact.to_string(),
        version: version.to_string(),
        scope: "compile".to_string(),
        children,
    }
}

#[test]
fn test_format_tree() {
    let n = DepNode {
        group: "com.google.code.gson".to_string(),
        artifact: "gson".to_string(),
        version: "2.11.0".to_string(),
        scope: "compile".to_string(),
        children: vec![],
    };
    let output = format_tree(&n, "", true);
    assert!(output.contains("gson:2.11.0"));
}

#[test]
fn format_tree_nested_prefixes() {
    let tree = node("root", "1", vec![node("a", "1", vec![node("c", "3", vec![])]), node("b", "2", vec![])]);
    assert_eq!(
        format_tree(&tree, "", true),
        "└─ g:root:1\n   ├─ g:a:1\n   │  └─ g:c:3\n   └─ g:b:2\n"
    );
}

#[test]
fn split_coord_and_urls() {
    assert_eq!(
        split_coord("com.google.code.gson:gson").unwrap(),
        ("com.google.code.gson".to_string(), "gson".to_string())
    );
    assert_eq!(
        split_coord("gson").unwrap_err().message(),
        "无效坐标格式: gson（应为 group:artifact）"
    );
    assert_eq!(
        search_url("org.slf4j", "slf4j-api"),
        "https://search.maven.org/solrsearch/select?q=g:org.slf4j+AND+a:slf4j-api&core=gav&rows=200&wt=json"
    );
    assert_eq!(
        pom_url("org.slf4j", "slf4j-api", "2.0.9"),
        "https://repo1.maven.org/maven2/org/slf4j/slf4j-api/2.0.9/slf4j-api-2.0.9.pom"
    );
}

#[test]
fn latest_version_is_first() {
    assert_eq!(
        latest_from_versions("a:b", vec!["2.0".to_string(), "1.0".to_string()]).unwrap(),
        "2.0"
    );
    assert_eq!(latest_from_versions("a:b", vec![]).unwrap_err().message(), "未找到依赖: a:b");
}

#[test]
fn pom_dependencies_keep_compile_and_runtime() {
    let pom = "<project><dependencies>\
        <dependency><groupId>a</groupId><artifactId>x</artifactId><version>1</version></dependency>\
        <dependency><groupId>b</groupId><artifactId>y</artifactId><version>2</version><scope>test</scope></dependency>\
        <dependency><groupId>c</groupId><artifactId>z</artifactId><version>3</version><scope>runtime</scope></dependency>\
        <dependency><groupId>d</groupId><artifactId>w</artifactId><version>4</version><optional>true</optional></dependency>\
        <dependency><groupId>e</groupId><artifactId>v</artifactId></dependency>\
        </dependencies></project>";
    let deps = parse_pom_dependencies(pom).unwrap();
    assert_eq!(
        deps,
        vec![
            ("a".to_string(), "x".to_string(), "1".to_string()),
            ("c".to_string(), "z".to_string(), "3".to_string()),
        ]
    );
}

#[test]
fn leaf_and_expand_rules() {
    let leaf = leaf_node("g", "a", None);
    assert_eq!(leaf.version, "?");
    assert_eq!(leaf.scope, "compile");
    assert!(leaf.children.is_empty());
    let visited = vec!["g:a".to_string()];
    assert!(!should_expand(&visited, "g:a", 0));
    assert!(should_expand(&visited, "g:b", 7));
    assert!(!should_expand(&visited, "g:b", 8));
}

use jex_core::error::{Error, Result};
use jex_core::resolver::{resolve_dependencies, resolve_latest};

fn gson_search(g: String, a: String) -> Result<Vec<String>> {
    if g == "com.google.code.gson" && a == "gson" {
        Ok(vec!["2.11.0".to_string(), "2.10.1".to_string()])
    } else if g == "empty" {
        Ok(vec![])
    } else {
        Err(Error::new("HTTP 请求失败: offline"))
    }
}

#[test]
fn test_resolve_latest_gson() {
    let result = resolve_latest(&gson_search, "com.google.code.gson:gson");
    assert!(result.is_ok());
    let ver = result.unwrap();
    assert!(ver.starts_with("2."), "got: {}", ver);
}

#[test]
fn resolve_latest_errors() {
    assert_eq!(resolve_latest(&gson_search, "empty:x").unwrap_err().message(), "未找到依赖: empty:x");
    assert_eq!(resolve_latest(&gson_search, "a:b").unwrap_err().message(), "HTTP 请求失败: offline");
    assert!(resolve_latest(&gson_search, "nocolon").is_err());
}

#[test]
fn resolve_dependencies_builds_tree_once_per_artifact() {
    let pom = |g: String, a: String, v: String| -> Option<String> {
        match (g.as_str(), a.as_str(), v.as_str()) {
            ("com.google.code.gson", "gson", "2.11.0") => Some(
                "<project><dependencies>\
                 <dependency><groupId>x</groupId><artifactId>a</artifactId><version>1</version></dependency>\
                 <dependency><groupId>x</groupId><artifactId>b</artifactId><version>2</version></dependency>\
                 </dependencies></project>"
                    .to_string(),
            ),
            ("x", "a", "1") => Some(
                "<project><dependencies>\
                 <dependency><groupId>x</groupId><artifactId>b</artifactId><version>2</version></dependency>\
                 </dependencies></project>"
                    .to_string(),
            ),
            ("x", "b", "2") => Some(String::new()),
            _ => None,
        }
    };
    let tree = resolve_dependencies(&gson_search, &pom, "com.google.code.gson:gson").unwrap();
    assert_eq!(
        format_tree(&tree, "", true),
        "└─ com.google.code.gson:gson:2.11.0\n   ├─ x:a:1\n   │  └─ x:b:2\n   └─ x:b:2\n"
    );
    assert!(tree.children[1].children.is_empty());
    assert!(resolve_dependencies(&gson_search, &pom, "a:b").is_err());
}

#[test]
fn resolve_dependencies_cycle_is_a_leaf() {
    let pom = |g: String, a: String, v: String| -> Option<String> {
        match (g.as_str(), a.as_str(), v.as_str()) {
            ("com.google.code.gson", "gson", "2.11.0") => Some(
                "<project><dependencies>\
                 <dependency><groupId>x</groupId><artifactId>a</artifactId><version>1</version></dependency>\
                 </dependencies></project>"
                    .to_string(),
            ),
            ("x", "a", "1") => Some(
                "<project><dependencies>\
                 <dependency><groupId>com.google.code.gson</groupId><artifactId>gson</artifactId><version>2.0</version></dependency>\
                 </dependencies></project>"
                    .to_string(),
            ),
            _ => None,
        }
    };
    let tree = resolve_dependencies(&gson_search, &pom, "com.google.code.gson:gson").unwrap();
    assert_eq!(
        format_tree(&tree, "", true),
        "└─ com.google.code.gson:gson:2.11.0\n   └─ x:a:1\n      └─ com.google.code.gson:gson:2.0\n"
    );
    assert!(tree.children[0].children[0].children.is_empty());
}

#[test]
fn resolve_dependencies_root_lookup_error() {
    let pom = |_g: String, _a: String, _v: String| -> Option<String> { None };
    assert_eq!(
        resolve_dependencies(&gson_search, &pom, "empty:x").unwrap_err().message(),
        "未找到依赖: empty:x"
    );
    assert!(resolve_dependencies(&gson_search, &pom, "nocolon").is_err());
    let tree = resolve_dependencies(&gson_search, &pom, "com.google.code.gson:gson").unwrap();
    assert!(tree.children.is_empty());
}
