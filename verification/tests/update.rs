use jex_core::update::{
    current_version, find_asset_url, needs_update, platform_for, strip_tag_prefix, update_info_from_release,
    GitHubAsset, UpdateInfo,
};

fn asset(name: &str, url: &str) -> GitHubAsset {
    GitHubAsset { name: name.to_string(), browser_download_url: url.to_string() }
}

fn plat(os: &str, arch: &str) -> (String, String) {
    (os.to_string(), arch.to_string())
}

#[test]
fn test_current_version() {
    let version = current_version();
    assert!(!version.is_empty());
    assert_eq!(version, "0.27.0");
}

#[test]
fn test_needs_update_major() {
    assert!(needs_update("0.9.0", "1.0.0"));
    assert!(!needs_update("1.0.0", "0.9.0"));
}

#[test]
fn test_needs_update_minor() {
    assert!(needs_update("0.9.0", "0.10.0"));
    assert!(!needs_update("0.10.0", "0.9.0"));
}

#[test]
fn test_needs_update_patch() {
    assert!(needs_update("0.10.0", "0.10.1"));
    assert!(!needs_update("0.10.1", "0.10.0"));
}

#[test]
fn test_needs_update_same() {
    assert!(!needs_update("0.10.0", "0.10.0"));
}

#[test]
fn test_detect_platform() {
    let (os, arch) = platform_for("linux", "x86_64").unwrap();
    assert!(["linux", "macos", "windows"].contains(&os.as_str()));
    assert!(["amd64", "arm64"].contains(&arch.as_str()));
    assert_eq!(platform_for("macos", "aarch64").unwrap(), plat("macos", "arm64"));
    assert_eq!(platform_for("freebsd", "x86_64").unwrap_err().message(), "不支持的操作系统: freebsd");
    assert_eq!(platform_for("linux", "riscv64").unwrap_err().message(), "不支持的架构: riscv64");
}

#[test]
fn test_find_asset_url() {
    let assets = vec![
        asset("jex-linux-amd64", "https://example.com/jex-linux-amd64"),
        asset("jex-linux-arm64", "https://example.com/jex-linux-arm64"),
        asset("jex-windows-amd64.exe", "https://example.com/jex-windows-amd64.exe"),
    ];
    let url = find_asset_url(&assets, &plat("linux", "amd64")).unwrap();
    assert_eq!(url, "https://example.com/jex-linux-amd64");
    let url = find_asset_url(&assets, &plat("windows", "amd64")).unwrap();
    assert_eq!(url, "https://example.com/jex-windows-amd64.exe");
}

#[test]
fn test_needs_update_equal_three_part() {
    assert!(!needs_update("1.2.3", "1.2.3"));
}

#[test]
fn test_needs_update_major_reversed() {
    assert!(!needs_update("2.0.0", "1.0.0"));
}

#[test]
fn test_needs_update_minor_reversed() {
    assert!(!needs_update("1.2.0", "1.1.0"));
}

#[test]
fn test_needs_update_patch_reversed() {
    assert!(!needs_update("1.0.2", "1.0.1"));
}

#[test]
fn test_find_asset_url_not_found() {
    let assets = vec![asset("jex-linux-amd64", "https://example.com/jex-linux-amd64")];
    assert!(find_asset_url(&assets, &plat("windows", "arm64")).is_err());
}

#[test]
fn test_find_asset_url_multiple_platforms() {
    let assets = vec![
        asset("jex-linux-amd64", "url1"),
        asset("jex-linux-arm64", "url2"),
        asset("jex-darwin-amd64", "url3"),
        asset("jex-darwin-arm64", "url4"),
        asset("jex-windows-amd64.exe", "url5"),
    ];
    assert_eq!(find_asset_url(&assets, &plat("linux", "arm64")).unwrap(), "url2");
    assert_eq!(find_asset_url(&assets, &plat("darwin", "amd64")).unwrap(), "url3");
    assert_eq!(find_asset_url(&assets, &plat("darwin", "arm64")).unwrap(), "url4");
    assert_eq!(find_asset_url(&assets, &plat("windows", "amd64")).unwrap(), "url5");
}

#[test]
fn test_find_asset_url_empty_assets() {
    let assets: Vec<GitHubAsset> = vec![];
    assert!(find_asset_url(&assets, &plat("linux", "amd64")).is_err());
}

#[test]
fn test_update_info_struct() {
    let info = UpdateInfo {
        latest_version: "1.0.0".to_string(),
        download_url: "https://example.com/jex".to_string(),
        release_notes: "Initial release".to_string(),
    };
    assert_eq!(info.latest_version, "1.0.0");
    assert!(info.download_url.contains("example.com"));
    assert_eq!(info.release_notes, "Initial release");
}

#[test]
fn test_update_info_clone() {
    let info = UpdateInfo {
        latest_version: "2.0.0".to_string(),
        download_url: "https://example.com/jex".to_string(),
        release_notes: "v2".to_string(),
    };
    let cloned = info.clone();
    assert_eq!(cloned.latest_version, "2.0.0");
    assert_eq!(cloned.release_notes, "v2");
}

#[test]
fn needs_update_is_numeric_not_textual() {
    assert!(needs_update("v0.9.9", "v0.27.0"));
    assert!(!needs_update("0.27.0", "0.27"));
}

#[test]
fn release_to_update_info() {
    assert_eq!(strip_tag_prefix("vv1.2"), "1.2");
    let assets = vec![asset("jex-linux-amd64", "u")];
    let info = update_info_from_release("v1.0.0", None, &assets, &plat("linux", "amd64")).unwrap();
    assert_eq!(info.latest_version, "1.0.0");
    assert_eq!(info.download_url, "u");
    assert_eq!(info.release_notes, "");
    assert!(update_info_from_release("v1", Some("n".to_string()), &assets, &plat("macos", "arm64")).is_err());
}
