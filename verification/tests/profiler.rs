use jex_core::profiler::{
    classify_profiler_error, flame_output_dir, parse_collapsed, profiler_args, profiler_binary,
    profiler_home, xml_escape, Arch, Os, Platform,
};

#[test]
fn test_platform_detect() {
    let platform = Platform::from_consts("linux", "x86_64");
    assert!(platform.os == Os::Linux || platform.os == Os::Macos, "期望 Linux 或 macOS");
    assert_eq!(platform.arch, Arch::X86_64);
    let other = Platform::from_consts("freebsd", "riscv64");
    assert_eq!(other.os, Os::Linux);
    assert_eq!(other.arch, Arch::Unknown("riscv64".to_string()));
}

#[test]
fn test_platform_download_name_linux_x64() {
    let platform = Platform { os: Os::Linux, arch: Arch::X86_64 };
    assert_eq!(platform.download_name("3.0"), "async-profiler-3.0-linux-x64");
}

#[test]
fn test_platform_download_name_macos_arm64() {
    let platform = Platform { os: Os::Macos, arch: Arch::Aarch64 };
    assert_eq!(platform.download_name("3.0"), "async-profiler-3.0-macos-arm64");
}

#[test]
fn test_platform_download_url() {
    let platform = Platform { os: Os::Linux, arch: Arch::X86_64 };
    let url = platform.download_url("3.0");
    assert!(url.contains("async-profiler-3.0-linux-x64.zip"));
    assert!(url.starts_with("https://"));
    assert_eq!(
        url,
        "https://github.com/async-profiler/async-profiler/releases/download/v3.0/async-profiler-3.0-linux-x64.zip"
    );
}

#[test]
fn test_platform_binary_relative_path() {
    assert_eq!(Platform { os: Os::Linux, arch: Arch::X86_64 }.binary_relative_path(), "bin/asprof");
    assert_eq!(Platform { os: Os::Macos, arch: Arch::Aarch64 }.binary_relative_path(), "bin/dtrace");
}

#[test]
fn test_profiler_home() {
    let home = profiler_home("/home/u/.jex");
    assert!(home.contains(".jex"));
    assert!(home.contains("profiler"));
    assert_eq!(home, "/home/u/.jex/profiler/3.0");
    let bin = profiler_binary("/home/u/.jex", &Platform { os: Os::Linux, arch: Arch::X86_64 });
    assert_eq!(bin, "/home/u/.jex/profiler/3.0/bin/asprof");
}

#[test]
fn test_flame_output_dir() {
    let dir = flame_output_dir(12345, 1700000000);
    assert!(dir.contains("jex-flame-12345"));
    assert!(dir.starts_with("/tmp/"));
    assert_eq!(dir, "/tmp/jex-flame-12345-1700000000");
}

#[test]
fn test_xml_escape() {
    assert_eq!(xml_escape("a & b"), "a &amp; b");
    assert_eq!(xml_escape("<tag>"), "&lt;tag&gt;");
    assert_eq!(xml_escape("\"quoted\""), "&quot;quoted&quot;");
    assert_eq!(xml_escape("normal"), "normal");
}

#[test]
fn profiler_args_by_os() {
    assert_eq!(
        profiler_args(Os::Linux, 42, 30, "/tmp/x.collapsed").unwrap(),
        vec!["-d", "30", "-f", "/tmp/x.collapsed", "-o", "collapsed", "42"]
    );
    assert_eq!(
        profiler_args(Os::Macos, 42, 30, "/tmp/x.collapsed").unwrap(),
        vec!["-p", "42", "-d", "30", "-f", "/tmp/x.collapsed"]
    );
    assert_eq!(
        profiler_args(Os::Windows, 42, 30, "c").unwrap_err().message(),
        "Windows 暂不支持 async-profiler 火焰图"
    );
}

#[test]
fn profiler_errors_by_message() {
    assert!(classify_profiler_error("open: Permission denied", 7).message().starts_with("权限不足"));
    assert_eq!(classify_profiler_error("No such process", 7).message(), "进程 7 不存在");
    assert_eq!(classify_profiler_error("boom", 7).message(), "profiler 执行失败: boom");
}

#[test]
fn parse_collapsed_lines() {
    let content = "main;thread1;func1 100\n\n  main;thread1;func2 50  \nbroken line\nmain;x -3\n";
    assert_eq!(
        parse_collapsed(content),
        vec![("main;thread1;func1".to_string(), 100), ("main;thread1;func2".to_string(), 50)]
    );
    assert!(parse_collapsed("").is_empty());
}
