use jex_core::tree::{build_dependency_tree, render_tree, DependencyNode, DependencyTree};

fn n(name: &str, version: &str, license: Option<&str>, children: Vec<DependencyNode>) -> DependencyNode {
    DependencyNode { name: name.to_string(), version: version.to_string(), license: license.map(|s| s.to_string()), children }
}

#[test]
fn test_build_dependency_tree() {
    let tree = build_dependency_tree(&vec![]);
    assert!(tree.is_ok());
    let tree = tree.unwrap();
    assert_eq!(tree.root.name, "root");
}

#[test]
fn test_render_tree() {
    let tree = DependencyTree {
        root: n(
            "root",
            "",
            None,
            vec![
                n("com.google.code.gson:gson", "2.11.0", Some("MIT"), vec![]),
                n("org.junit.jupiter:junit-jupiter", "5.10.0", Some("Apache-2.0"), vec![]),
            ],
        ),
    };
    let output = render_tree(&tree, None);
    assert!(output.contains("root"));
    assert!(output.contains("com.google.code.gson:gson"));
    assert!(output.contains("org.junit.jupiter:junit-jupiter"));
}

#[test]
fn test_render_tree_with_depth() {
    let tree = DependencyTree {
        root: n("root", "", None, vec![n("child", "1.0", None, vec![n("grandchild", "0.5", None, vec![])])]),
    };
    let output = render_tree(&tree, Some(1));
    assert!(output.contains("child"));
    assert!(!output.contains("grandchild"));
}

#[test]
fn test_build_dependency_tree_with_deps() {
    let deps = vec![
        ("com.google.code.gson:gson".to_string(), "2.11.0".to_string()),
        ("org.junit.jupiter:junit-jupiter".to_string(), "5.10.0".to_string()),
    ];
    let tree = build_dependency_tree(&deps).unwrap();
    assert_eq!(tree.root.name, "root");
    assert_eq!(tree.root.children.len(), 2);
    let names: Vec<_> = tree.root.children.iter().map(|c| c.name.as_str()).collect();
    assert!(names.contains(&"com.google.code.gson:gson"));
    assert!(names.contains(&"org.junit.jupiter:junit-jupiter"));
    let gson = tree.root.children.iter().find(|c| c.name == "com.google.code.gson:gson").unwrap();
    assert_eq!(gson.version, "2.11.0");
}

#[test]
fn test_render_tree_single_child_not_last() {
    let tree = DependencyTree {
        root: n("root", "", None, vec![n("first", "1.0", None, vec![]), n("second", "2.0", None, vec![])]),
    };
    let output = render_tree(&tree, None);
    assert!(output.contains("├── first"));
    assert!(output.contains("└── second"));
}

#[test]
fn test_render_tree_depth_zero() {
    let tree = DependencyTree { root: n("root", "", None, vec![n("child", "1.0", None, vec![])]) };
    let output = render_tree(&tree, Some(0));
    assert!(output.contains("root"));
    assert!(!output.contains("child"));
}
