use std::collections::HashSet;
use jex_core::dashboard::Tone;
use jex_core::tree::{DependencyNode, DependencyTree};
use jex_core::tree_view::{
    flatten_tree, has_matching_descendant, tree_help_lines, tree_panel_title, InputMode, TreeBrowser, TreeKey,
};

fn n(name: &str, version: &str, license: Option<&str>, children: Vec<DependencyNode>) -> DependencyNode {
    DependencyNode { name: name.to_string(), version: version.to_string(), license: license.map(|s| s.to_string()), children }
}

fn sample() -> DependencyTree {
    DependencyTree {
        root: n(
            "root",
            "1.0",
            None,
            vec![n("x:lib", "2.0", Some("MIT"), vec![]), n("y:lib", "3.0", None, vec![n("z:core", "4.0", None, vec![])])],
        ),
    }
}

fn keys(k: &[usize]) -> HashSet<usize> {
    k.iter().copied().collect()
}

fn names(b: &TreeBrowser) -> Vec<String> {
    b.flat.iter().map(|r| r.name.clone()).collect()
}

#[test]
fn flatten_shows_expanded_nodes_only() {
    let t = sample();
    let rows = flatten_tree(&t, &keys(&[0]), "");
    let got: Vec<(String, usize, bool, usize)> =
        rows.iter().map(|r| (r.name.clone(), r.depth, r.has_children, r.child_idx)).collect();
    assert_eq!(
        got,
        vec![
            ("root".to_string(), 0, true, 0),
            ("x:lib".to_string(), 1, false, 0),
            ("y:lib".to_string(), 1, true, 1)
        ]
    );
    let rows = flatten_tree(&t, &keys(&[]), "");
    assert_eq!(rows.len(), 1);
    let rows = flatten_tree(&t, &keys(&[0, 1]), "");
    assert_eq!(rows.len(), 3);
    let rows = flatten_tree(&t, &keys(&[0, 2]), "");
    assert_eq!(rows.len(), 4);
    assert_eq!(rows[3].name, "z:core");
    assert_eq!(rows[3].depth, 2);
}

#[test]
fn filter_keeps_ancestors_of_matches() {
    let t = sample();
    let rows = flatten_tree(&t, &keys(&[0, 2]), "CORE");
    let got: Vec<String> = rows.iter().map(|r| r.name.clone()).collect();
    assert_eq!(got, vec!["root", "y:lib", "z:core"]);
    assert!(has_matching_descendant(&t.root.children[1], "core"));
    assert!(!has_matching_descendant(&t.root.children[0], "core"));
}

#[test]
fn expand_collapse_and_move() {
    let t = sample();
    let mut b = TreeBrowser::new(&t);
    assert_eq!(names(&b), vec!["root", "x:lib", "y:lib"]);
    b.move_up();
    assert_eq!(b.selected, 0);
    b.move_down();
    b.move_down();
    b.move_down();
    assert_eq!(b.selected, 2);
    b.expand(&t);
    assert_eq!(names(&b), vec!["root", "x:lib", "y:lib", "z:core"]);
    assert_eq!(b.compute_tree_idx(2), 2);
    assert_eq!(b.expanded, keys(&[0, 2]));
    assert_eq!(b.status_line(), " 2/3 dependencies | q/Esc:退出  ?:帮助 ");
    b.move_down();
    assert_eq!(b.selected, 3);
    b.collapse(&t);
    assert_eq!(b.selected, 2);
    b.collapse(&t);
    assert_eq!(names(&b), vec!["root", "x:lib", "y:lib"]);
    b.expand_all(&t);
    assert_eq!(b.flat.len(), 4);
    b.collapse_all(&t);
    assert_eq!(b.expanded, keys(&[0]));
    assert_eq!(b.selected, 0);
}

#[test]
fn keys_drive_search() {
    let t = sample();
    let mut b = TreeBrowser::new(&t);
    assert!(!b.handle_key(&t, TreeKey::Char('a')));
    assert_eq!(b.flat.len(), 4);
    assert!(!b.handle_key(&t, TreeKey::Char('/')));
    assert_eq!(b.input_mode, InputMode::Search);
    assert!(!b.handle_key(&t, TreeKey::Char('z')));
    assert_eq!(b.filter, "z");
    assert_eq!(names(&b), vec!["root", "y:lib", "z:core"]);
    assert_eq!(b.status_line(), " /z");
    b.handle_key(&t, TreeKey::Char('q'));
    assert_eq!(b.flat.len(), 1);
    assert_eq!(b.empty_message(), "没有匹配的依赖");
    b.handle_key(&t, TreeKey::Backspace);
    assert_eq!(b.filter, "z");
    b.handle_key(&t, TreeKey::Esc);
    assert_eq!(b.input_mode, InputMode::Normal);
    assert_eq!(b.filter, "");
    assert_eq!(b.flat.len(), 4);
    b.handle_key(&t, TreeKey::Char('G'));
    assert_eq!(b.selected, 3);
    b.handle_key(&t, TreeKey::PageUp);
    assert_eq!(b.selected, 0);
    b.handle_key(&t, TreeKey::PageDown);
    assert_eq!(b.selected, 3);
    b.handle_key(&t, TreeKey::Char('g'));
    assert_eq!(b.selected, 0);
    assert!(!b.handle_key(&t, TreeKey::Char('?')));
    assert!(b.show_help);
    assert!(!b.handle_key(&t, TreeKey::Char('q')));
    assert!(!b.show_help);
    assert!(b.handle_key(&t, TreeKey::Char('q')));
}

#[test]
fn rows_are_styled() {
    let t = sample();
    let b = TreeBrowser::new(&t);
    let root = b.row_line(0);
    let texts: Vec<String> = root.iter().map(|p| p.text.clone()).collect();
    assert_eq!(texts, vec!["▼ ", "root", "  v1.0", ""]);
    assert_eq!(root[1].tone, Tone::Yellow);
    assert!(root[1].bold);
    let x = b.row_line(1);
    let texts: Vec<String> = x.iter().map(|p| p.text.clone()).collect();
    assert_eq!(texts, vec!["    ", "x:lib", "  v2.0", "  [MIT]"]);
    assert_eq!(x[1].tone, Tone::White);
    assert_eq!(x[3].tone, Tone::Blue);
    let y = b.row_line(2);
    assert_eq!(y[0].text, "  ▼ ");
    let mut b2 = TreeBrowser::new(&t);
    b2.move_down();
    b2.move_down();
    assert_eq!(b2.row_line(2)[0].text, "  ▶ ");
    assert_eq!(b2.row_line(2)[1].tone, Tone::Yellow);
    assert_eq!(b.row_lines().len(), 3);
    assert_eq!(tree_panel_title(), "jex tree (交互模式)");
    let help = tree_help_lines();
    assert_eq!(help.len(), 14);
    assert_eq!(help[0][0].text, "  jex tree 交互模式帮助");
}

#[test]
fn shallow_tree_is_browsable() {
    assert!(jex_core::tree_view::tree_browsable(&sample()));
}

#[test]
fn only_the_root_opens_at_start() {
    let t = DependencyTree {
        root: n("root", "1.0", None, vec![n("a:lib", "1.0", None, vec![n("b:lib", "2.0", None, vec![])])]),
    };
    let mut b = TreeBrowser::new(&t);
    assert_eq!(names(&b), vec!["root", "a:lib"]);
    b.move_down();
    assert_eq!(b.compute_tree_idx(1), 1);
    b.expand(&t);
    assert_eq!(names(&b), vec!["root", "a:lib", "b:lib"]);
    assert_eq!(b.expanded, keys(&[0, 1]));
    let rows = flatten_tree(&t, &keys(&[0, 1]), "");
    assert_eq!(rows.len(), 3);
}
