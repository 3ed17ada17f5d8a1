use jex_core::fmt::{changed_java_files, format_changed, gjf_args, parse_style, style_of_uppercase, FmtConfig, OutputMode, Style};

fn paths(v: &[&str]) -> Vec<String> {
    v.iter().map(|s| s.to_string()).collect()
}

#[test]
fn test_style_from_str() {
    assert_eq!("google".parse::<Style>().unwrap(), Style::Google);
    assert_eq!("AOSP".parse::<Style>().unwrap(), Style::Aosp);
    assert_eq!("OpenJ7".parse::<Style>().unwrap(), Style::OpenJ7);
    assert!("invalid".parse::<Style>().is_err());
}

#[test]
fn test_default_config() {
    let c = FmtConfig::default();
    assert_eq!(c.style, Style::Google);
    assert!(!c.aosp);
    assert!(!c.skip_future);
    assert!(c.exclude.contains(&"build/".to_string()));
}

#[test]
fn test_style_display() {
    assert_eq!(Style::Google.to_string(), "Google");
    assert_eq!(Style::Aosp.to_string(), "AOSP");
    assert_eq!(Style::OpenJ7.to_string(), "OpenJ7");
}

#[test]
fn test_style_from_str_openjdk7() {
    assert_eq!("OPENJDK7".parse::<Style>().unwrap(), Style::OpenJ7);
}

#[test]
fn test_style_default() {
    let s = Style::default();
    assert_eq!(s, Style::Google);
}

#[test]
fn test_style_clone() {
    let s = Style::Aosp;
    let cloned = s;
    assert_eq!(cloned, Style::Aosp);
}

#[test]
fn test_style_debug() {
    assert_eq!(format!("{:?}", Style::Google), "Google");
    assert_eq!(format!("{:?}", Style::Aosp), "Aosp");
    assert_eq!(format!("{:?}", Style::OpenJ7), "OpenJ7");
}

#[test]
fn test_fmt_config_clone() {
    let c = FmtConfig::default();
    let cloned = c.clone();
    assert_eq!(cloned.style, Style::Google);
    assert_eq!(cloned.exclude, c.exclude);
}

#[test]
fn test_fmt_config_debug() {
    let c = FmtConfig::default();
    let debug_str = format!("{:?}", c);
    assert!(debug_str.contains("Google"));
}

#[test]
fn test_output_mode_debug() {
    assert_eq!(format!("{:?}", OutputMode::Stdout), "Stdout");
    assert_eq!(format!("{:?}", OutputMode::Check), "Check");
    assert_eq!(format!("{:?}", OutputMode::Write), "Write");
}

#[test]
fn test_output_mode_clone() {
    let m = OutputMode::Check;
    let cloned = m;
    assert!(matches!(cloned, OutputMode::Check));
}

#[test]
fn test_format_changed_filtering() {
    let config = FmtConfig::default();
    let files = paths(&["build/Test.java", "Main.java", "target/Foo.java"]);
    let filtered = format_changed(&config, &files).unwrap();
    assert_eq!(filtered.len(), 1);
    assert_eq!(filtered[0], "Main.java");
}

#[test]
fn test_format_changed_empty_exclude() {
    let config = FmtConfig { style: Style::Google, aosp: false, skip_future: false, exclude: vec![] };
    let files = paths(&["build/Test.java", "Main.java"]);
    let filtered = format_changed(&config, &files).unwrap();
    assert_eq!(filtered.len(), 2);
}

#[test]
fn test_fmt_config_custom() {
    let c = FmtConfig {
        style: Style::Aosp,
        aosp: true,
        skip_future: true,
        exclude: vec!["generated/".to_string()],
    };
    assert_eq!(c.style, Style::Aosp);
    assert!(c.aosp);
    assert!(c.skip_future);
}

#[test]
fn test_style_equality() {
    assert_eq!(Style::Google, Style::Google);
    assert_ne!(Style::Google, Style::Aosp);
    assert_ne!(Style::Aosp, Style::OpenJ7);
}

#[test]
fn test_output_mode_equality() {
    assert!(matches!(OutputMode::Stdout, OutputMode::Stdout));
}

#[test]
fn test_style_from_invalid_strings() {
    assert!("google-java-format".parse::<Style>().is_err());
    assert!("".parse::<Style>().is_err());
    assert!("spring".parse::<Style>().is_err());
    assert!("random".parse::<Style>().is_err());
}

#[test]
fn test_format_changed_multiple_excludes() {
    let config = FmtConfig {
        style: Style::Google,
        aosp: false,
        skip_future: false,
        exclude: vec!["build/".to_string(), "target/".to_string(), "gen/".to_string()],
    };
    let files = paths(&["build/A.java", "target/B.java", "gen/C.java", "src/Main.java"]);
    let filtered = format_changed(&config, &files).unwrap();
    assert_eq!(filtered.len(), 1);
    assert_eq!(filtered[0], "src/Main.java");
}

#[test]
fn test_format_changed_non_java_preserved() {
    let config = FmtConfig::default();
    let files = paths(&["src/Main.java", "src/readme.md", "build/Test.java"]);
    let filtered = format_changed(&config, &files).unwrap();
    assert_eq!(filtered.len(), 2);
}

#[test]
fn test_format_changed_nested_exclude() {
    let config = FmtConfig { style: Style::Google, aosp: false, skip_future: false, exclude: vec!["build/".to_string()] };
    let files = paths(&["project/build/output/Test.java", "src/Main.java"]);
    let filtered = format_changed(&config, &files).unwrap();
    assert_eq!(filtered.len(), 1);
}

#[test]
fn test_style_clone_all() {
    let styles = [Style::Google, Style::Aosp, Style::OpenJ7];
    for s in styles {
        let cloned = s;
        assert_eq!(cloned, s);
    }
}

#[test]
fn parse_style_names_and_error() {
    assert_eq!(parse_style("Google").unwrap(), Style::Google);
    assert_eq!(parse_style("aosp").unwrap(), Style::Aosp);
    assert_eq!(parse_style("openjdk7").unwrap(), Style::OpenJ7);
    assert!(parse_style("x").is_err());
}

#[test]
fn gjf_args_for_each_style() {
    let google = FmtConfig::default();
    assert_eq!(gjf_args("g.jar", &google, None), paths(&["-jar", "g.jar"]));
    let aosp = FmtConfig { style: Style::Aosp, aosp: true, skip_future: true, exclude: vec![] };
    assert_eq!(
        gjf_args("g.jar", &aosp, Some("A.java")),
        paths(&["-jar", "g.jar", "--aosp", "--skip-sorting-imports", "A.java"])
    );
    let j7 = FmtConfig { style: Style::OpenJ7, aosp: false, skip_future: false, exclude: vec![] };
    assert_eq!(
        gjf_args("g.jar", &j7, Some("B.java")),
        paths(&["-jar", "g.jar", "--google-java-format-1.7", "B.java"])
    );
}

#[test]
fn changed_java_files_keeps_java_only() {
    let out = "src/A.java\nREADME.md\nsrc/b/B.java\n";
    assert_eq!(changed_java_files(out), paths(&["src/A.java", "src/b/B.java"]));
}

#[test]
fn style_table_of_uppercase_names() {
    assert_eq!(style_of_uppercase("OPENJDK7"), Some(Style::OpenJ7));
    assert_eq!(style_of_uppercase("GOOGLE"), Some(Style::Google));
    assert_eq!(style_of_uppercase("google"), None);
}
