use jex_core::util::{adoptium_arch_str, adoptium_os_str, join_path, parse_coord};

#[test]
fn test_parse_coord_valid() {
    let (g, a) = parse_coord("com.google.code.gson:gson").unwrap();
    assert_eq!(g, "com.google.code.gson");
    assert_eq!(a, "gson");
}

#[test]
fn test_parse_coord_simple() {
    let (g, a) = parse_coord("org.slf4j:slf4j-api").unwrap();
    assert_eq!(g, "org.slf4j");
    assert_eq!(a, "slf4j-api");
}

#[test]
fn test_parse_coord_no_colon() {
    let result = parse_coord("invalid-coord");
    assert!(result.is_err());
    let err = result.unwrap_err().message();
    assert!(err.contains("无效的坐标格式"));
}

#[test]
fn test_parse_coord_empty() {
    assert!(parse_coord("").is_err());
}

#[test]
fn test_parse_coord_only_colon() {
    let (g, a) = parse_coord(":").unwrap();
    assert_eq!(g, "");
    assert_eq!(a, "");
}

#[test]
fn test_adoptium_os_str() {
    let os = adoptium_os_str("linux").unwrap();
    assert!(os == "linux" || os == "mac" || os == "windows");
    assert_eq!(adoptium_os_str("macos").unwrap(), "mac");
    assert_eq!(adoptium_os_str("solaris").unwrap_err().message(), "不支持的操作系统: solaris");
}

#[test]
fn test_adoptium_arch_str() {
    let arch = adoptium_arch_str("x86_64").unwrap();
    assert!(arch == "x64" || arch == "aarch64");
    assert_eq!(adoptium_arch_str("aarch64").unwrap(), "aarch64");
    assert_eq!(adoptium_arch_str("mips").unwrap_err().message(), "不支持的架构: mips");
}

#[test]
fn parse_coord_ignores_extra_parts() {
    let (g, a) = parse_coord("g:a:1.0").unwrap();
    assert_eq!((g.as_str(), a.as_str()), ("g", "a"));
}

#[test]
fn join_path_like_pathbuf() {
    assert_eq!(join_path("/home/u", ".jex"), "/home/u/.jex");
    assert_eq!(join_path("/home/u/", ".jex"), "/home/u/.jex");
    assert_eq!(join_path("", "a"), "a");
    assert_eq!(join_path("/x", "/abs"), "/abs");
}
