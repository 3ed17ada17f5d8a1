use jex_core::config::{
    apply_fmt_settings, config_cache_max_size, config_default_jdk_version, config_get_in, config_jdk_mirror,
    config_maven_mirror, config_proxy_http, config_proxy_https, config_set_in, config_set_plan, read_fmt_config,
    read_language_config, read_language_config_in, ConfigValue,
};
use jex_core::fmt::Style;
use jex_core::i18n::Lang;

#[test]
fn test_read_fmt_config_full() {
    let toml_content = "\n[fmt]\nstyle = \"AOSP\"\naosp = true\nskip_future = true\nexclude = [\"build/\", \"out/\", \"generated/\"]\n";
    let config = read_fmt_config(toml_content).unwrap();
    assert_eq!(config.style, Style::Aosp);
    assert!(config.aosp);
    assert!(config.skip_future);
    assert_eq!(config.exclude, vec!["build/", "out/", "generated/"]);
}

#[test]
fn test_read_fmt_config_minimal() {
    let config = read_fmt_config("\n[fmt]\nstyle = \"Google\"\n").unwrap();
    assert_eq!(config.style, Style::Google);
    assert!(!config.aosp);
    assert!(!config.skip_future);
}

#[test]
fn test_read_fmt_config_no_fmt_section() {
    let config = read_fmt_config("\n[project]\nname = \"my-app\"\n").unwrap();
    assert_eq!(config.style, Style::Google);
    assert!(!config.aosp);
    assert!(!config.skip_future);
    assert!(config.exclude.contains(&"build/".to_string()));
}

#[test]
fn test_read_fmt_config_invalid_toml() {
    let result = read_fmt_config("{{{{invalid");
    assert!(result.is_err());
    assert!(result.unwrap_err().message().contains("解析 jex.toml 失败"));
}

#[test]
fn test_read_fmt_config_invalid_style() {
    let config = read_fmt_config("\n[fmt]\nstyle = \"InvalidStyle\"\n").unwrap();
    assert_eq!(config.style, Style::Google);
}

#[test]
fn test_read_fmt_config_exclude_with_non_strings() {
    let config = read_fmt_config("\n[fmt]\nexclude = [\"build/\", 123, true, \"out/\"]\n").unwrap();
    assert_eq!(config.exclude, vec!["build/", "out/"]);
}

#[test]
fn apply_fmt_settings_defaults() {
    let c = apply_fmt_settings(None, None, None, None);
    assert_eq!(c.style, Style::Google);
    assert_eq!(c.exclude, vec!["build/", "target/"]);
    let c = apply_fmt_settings(Some("openj7".to_string()), Some(true), None, Some(vec![None, Some("x/".to_string())]));
    assert_eq!(c.style, Style::OpenJ7);
    assert!(c.aosp);
    assert_eq!(c.exclude, vec!["x/"]);
}

#[test]
fn config_get_dotted_keys() {
    let content = "[i18n]\nlang = \"zh\"\n[cache]\nmax_size = 1024\n";
    assert_eq!(config_get_in(content, "i18n.lang").unwrap(), "\"zh\"");
    assert_eq!(config_get_in(content, "cache.max_size").unwrap(), "1024");
    assert_eq!(config_get_in(content, "i18n.missing").unwrap_err().message(), "Key not found: i18n.missing");
    assert!(config_get_in("[[[", "a.b").unwrap_err().message().starts_with("Invalid TOML: "));
}

#[test]
fn optional_settings_strip_quotes() {
    assert_eq!(config_default_jdk_version(Some("\"21\"".to_string())), Some("21".to_string()));
    assert_eq!(config_jdk_mirror(Some("\"\"".to_string())), None);
    assert_eq!(config_proxy_http(None), None);
    assert_eq!(config_proxy_https(Some("\"https://p\"".to_string())), Some("https://p".to_string()));
    assert_eq!(config_maven_mirror(Some("\"m\"".to_string())), Some("m".to_string()));
}

#[test]
fn cache_max_size_parsing() {
    assert_eq!(config_cache_max_size(None), 1024 * 1024 * 1024);
    assert_eq!(config_cache_max_size(Some("2048".to_string())), 2048);
    assert_eq!(config_cache_max_size(Some("\"4096\"".to_string())), 4096);
    assert_eq!(config_cache_max_size(Some("lots".to_string())), 1024 * 1024 * 1024);
}

#[test]
fn language_setting_precedence() {
    assert_eq!(read_language_config(Some("zh"), Some("en")), Lang::Zh);
    assert_eq!(read_language_config(Some("fr"), Some("zh-CN")), Lang::Zh);
    assert_eq!(read_language_config(None, Some("xx")), Lang::En);
}

#[test]
fn config_set_plan_types_values() {
    assert_eq!(
        config_set_plan("i18n.lang", "zh").unwrap(),
        ("i18n".to_string(), "lang".to_string(), ConfigValue::Text("zh".to_string()))
    );
    assert_eq!(config_set_plan("a.b", "true").unwrap().2, ConfigValue::Boolean(true));
    assert_eq!(config_set_plan("a.b", "-42").unwrap().2, ConfigValue::Integer(-42));
    assert_eq!(config_set_plan("ab", "1").unwrap_err().message(), "Key must be section.field (e.g. i18n.lang)");
}

#[test]
fn language_from_config_text() {
    let cfg = "[i18n]\nlang = \"zh\"\n";
    assert_eq!(read_language_config_in(Some(cfg), Some("en")), Lang::Zh);
    assert_eq!(read_language_config_in(Some("[i18n]\nlang = \"xx\"\n"), Some("zh")), Lang::Zh);
    assert_eq!(read_language_config_in(Some("[i18n]\nlang = 3\n"), None), Lang::En);
    assert_eq!(read_language_config_in(Some("not = [toml"), Some("zh")), Lang::Zh);
    assert_eq!(read_language_config_in(None, Some("ZH")), Lang::Zh);
    assert_eq!(read_language_config_in(None, None), Lang::En);
}

#[test]
fn config_set_in_new_file() {
    let t = config_set_in(None, "i18n.lang", "zh").unwrap();
    assert_eq!(t, "[i18n]\nlang = \"zh\"\n");
    assert_eq!(config_get_in(&t, "i18n.lang").unwrap(), "\"zh\"");
}

#[test]
fn config_set_in_types_and_keeps_others() {
    let existing = "[i18n]\nlang = \"en\"\n\n[cache]\nmax_size = 5\n";
    let t = config_set_in(Some(existing), "cache.enabled", "true").unwrap();
    assert_eq!(config_get_in(&t, "cache.enabled").unwrap(), "true");
    assert_eq!(config_get_in(&t, "cache.max_size").unwrap(), "5");
    assert_eq!(config_get_in(&t, "i18n.lang").unwrap(), "\"en\"");
    let t = config_set_in(Some(&t), "cache.max_size", "42").unwrap();
    assert_eq!(config_get_in(&t, "cache.max_size").unwrap(), "42");
    let t = config_set_in(Some(&t), "i18n.lang", "zh").unwrap();
    assert_eq!(config_get_in(&t, "i18n.lang").unwrap(), "\"zh\"");
}

#[test]
fn config_set_in_errors() {
    assert_eq!(
        config_set_in(None, "lang", "zh").unwrap_err().message(),
        "Key must be section.field (e.g. i18n.lang)"
    );
    assert_eq!(config_set_in(Some("i18n = 5\n"), "i18n.lang", "zh").unwrap_err().message(), "Not a table: i18n");
    let t = config_set_in(Some("not = [toml"), "i18n.lang", "zh").unwrap();
    assert_eq!(t, "[i18n]\nlang = \"zh\"\n");
}
