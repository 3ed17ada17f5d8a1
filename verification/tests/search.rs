use jex_core::search::{search_lines, search_url, version_lines, versions_url, SearchDoc};

fn doc(g: Option<&str>, a: Option<&str>, v: Option<&str>, count: Option<u32>, desc: Option<&str>) -> SearchDoc {
    SearchDoc {
        group_id: g.map(|s| s.to_string()),
        artifact_id: a.map(|s| s.to_string()),
        latest_version: v.map(|s| s.to_string()),
        version_count: count,
        description: desc.map(|s| s.to_string()),
        extensions: None,
    }
}

#[test]
fn test_fetch_docs_url_format() {
    let url = search_url("gson", 10);
    assert!(url.contains("gson"));
    assert!(url.contains("rows=10"));
    assert!(url.contains("wt=json"));
    assert_eq!(url, "https://search.maven.org/solrsearch/select?q=gson&rows=10&wt=json");
}

#[test]
fn versions_url_needs_group_and_artifact() {
    assert_eq!(
        versions_url("com.google.code.gson:gson").unwrap(),
        "https://search.maven.org/solrsearch/select?q=g:com.google.code.gson+AND+a:gson&core=gav&rows=100&wt=json"
    );
    assert!(versions_url("gson").is_err());
}

#[test]
fn search_lines_lists_docs() {
    let docs = vec![
        doc(Some("com.google.code.gson"), Some("gson"), Some("2.11.0"), Some(30), Some("Gson library")),
        doc(Some("org.example"), Some("lib"), None, None, None),
    ];
    assert_eq!(
        search_lines("gson", &docs),
        vec![
            "搜索结果: \"gson\"".to_string(),
            "".to_string(),
            "  com.google.code.gson:gson (2.11.0)".to_string(),
            "    Gson library".to_string(),
            "  org.example:lib (?)".to_string(),
        ]
    );
    assert_eq!(search_lines("zzz", &vec![]), vec!["未找到结果: zzz".to_string()]);
}

#[test]
fn version_lines_with_counts() {
    let docs = vec![doc(None, None, Some("2.11.0"), Some(30), None), doc(None, None, Some("2.10.1"), None, None)];
    assert_eq!(
        version_lines("a:b", &docs),
        vec!["a:b 的版本:".to_string(), "  2.11.0 (共 30 个版本)".to_string(), "  2.10.1".to_string()]
    );
    assert_eq!(version_lines("a:b", &vec![]), vec!["未找到版本: a:b".to_string()]);
}
