use jex_core::jdk::{
    adoptium_download_url, archive_file_name, current_version, doctor_lines, java_home_path,
    list_lines, sort_versions, use_version_plan, version_file_text, which_java_home, VersionScope,
};
use jex_core::util::{adoptium_arch_str, adoptium_os_str};

#[test]
fn current_version_prefers_project_file() {
    assert_eq!(current_version(Some(" 21\n"), Some("17")), Some("21".to_string()));
    assert_eq!(current_version(None, Some("17\n")), Some("17".to_string()));
    assert_eq!(current_version(None, None), None);
}

#[test]
fn java_home_joins_directory_and_version() {
    assert_eq!(java_home_path("/home/u/.jex/jdks", "21"), "/home/u/.jex/jdks/21");
}

#[test]
fn which_reports_home_or_errors() {
    assert_eq!(which_java_home("/j", Some("21"), true).unwrap(), "/j/21");
    let e = which_java_home("/j", Some("21"), false).unwrap_err();
    assert_eq!(e.0, "版本 21 已声明但未安装，请运行 jex jdk install 21");
    let e = which_java_home("/j", None, true).unwrap_err();
    assert_eq!(e.0, "未设置 JDK 版本，请运行 jex jdk use <version> 或 jex jdk install <version>");
}

#[test]
fn download_url_and_archive_name() {
    assert_eq!(
        adoptium_download_url("21", "linux", "x64"),
        "https://api.adoptium.net/v3/binary/latest/21/ga/linux/x64/jdk/hotspot/normal/eclipse"
    );
    assert_eq!(archive_file_name("windows"), "jdk.zip");
    assert_eq!(archive_file_name("linux"), "jdk.tar.gz");
}

#[test]
fn adoptium_names_for_platforms() {
    assert_eq!(adoptium_os_str("macos").unwrap(), "mac");
    assert_eq!(adoptium_os_str("linux").unwrap(), "linux");
    assert_eq!(adoptium_os_str("plan9").unwrap_err().0, "不支持的操作系统: plan9");
    assert_eq!(adoptium_arch_str("x86_64").unwrap(), "x64");
    assert_eq!(adoptium_arch_str("mips").unwrap_err().0, "不支持的架构: mips");
}

#[test]
fn version_file_ends_with_newline() {
    assert_eq!(version_file_text("17"), "17\n");
}

#[test]
fn versions_sort_by_name() {
    let v = vec!["8".to_string(), "21".to_string(), "17".to_string()];
    assert_eq!(sort_versions(v), vec!["17".to_string(), "21".to_string(), "8".to_string()]);
    assert_eq!(sort_versions(vec![]), Vec::<String>::new());
}

#[test]
fn list_marks_current_version() {
    let installed = vec!["17".to_string(), "21".to_string()];
    let lines = list_lines(&installed, Some("21"));
    assert_eq!(lines, vec!["已安装的 JDK 版本:", "      17 ✔", "   → 21 ✔"]);
    let lines = list_lines(&installed, None);
    assert_eq!(lines.len(), 4);
    assert_eq!(lines[3], "\n未设置默认版本，请运行 jex jdk use <version>");
    let lines = list_lines(&vec![], None);
    assert_eq!(lines, vec!["未安装任何 JDK 版本", "  使用 jex jdk install <version> 安装"]);
}

#[test]
fn use_plan_picks_scope() {
    let (scope, msg) = use_version_plan("21", true, true).unwrap();
    assert_eq!(scope, VersionScope::Project);
    assert_eq!(msg, "项目 JDK 版本已切换为 21 (.jex-version)");
    let (scope, msg) = use_version_plan("17", true, false).unwrap();
    assert_eq!(scope, VersionScope::Global);
    assert_eq!(msg, "全局 JDK 版本已切换为 17 (~/.jex/jdk-current)");
    let e = use_version_plan("11", false, true).unwrap_err();
    assert_eq!(e.0, "JDK 11 未安装，请先运行 jex jdk install 11");
}

#[test]
fn doctor_reports_each_state() {
    assert_eq!(doctor_lines(Some("21"), true, false), vec!["JDK 一致性检查:", "  ✅ 版本 21 已声明且已安装"]);
    assert_eq!(
        doctor_lines(Some("21"), false, true),
        vec![
            "JDK 一致性检查:",
            "  ❌ 版本 21 已声明但未安装",
            "     请运行: jex jdk install 21",
            "  ⚠️  未安装任何 JDK 版本"
        ]
    );
    assert_eq!(
        doctor_lines(None, false, false),
        vec!["JDK 一致性检查:", "  ⚠️  未设置默认 JDK 版本", "     请运行: jex jdk use <version>"]
    );
}
