use jex_core::i18n::{Catalog, Lang};

fn catalog() -> Catalog {
    let mut c = Catalog::new();
    c.init_messages();
    c
}

#[test]
fn test_lang_from_str() {
    assert_eq!(Lang::parse_lang("zh"), Some(Lang::Zh));
    assert_eq!(Lang::parse_lang("ZH"), Some(Lang::Zh));
    assert_eq!(Lang::parse_lang("zh-cn"), Some(Lang::Zh));
    assert_eq!(Lang::parse_lang("en"), Some(Lang::En));
    assert_eq!(Lang::parse_lang("en-us"), Some(Lang::En));
    assert_eq!(Lang::parse_lang("fr"), None);
    assert_eq!(Lang::parse_lang(""), None);
}

#[test]
fn test_lang_as_str() {
    assert_eq!(Lang::Zh.as_str(), "zh");
    assert_eq!(Lang::En.as_str(), "en");
}

#[test]
fn test_init_messages_populates_catalog() {
    let c = catalog();
    assert!(!c.is_empty());
    assert!(c.contains_key("cannot_find_home"));
    assert!(c.contains_key("compilation_failed"));
}

#[test]
fn test_set_and_get_lang() {
    let mut c = catalog();
    let orig = c.get_lang();
    c.set_lang(Lang::Zh);
    assert_eq!(c.get_lang(), Lang::Zh);
    c.set_lang(Lang::En);
    assert_eq!(c.get_lang(), Lang::En);
    c.set_lang(orig);
}

#[test]
fn test_msg_zh() {
    let mut c = catalog();
    c.set_lang(Lang::Zh);
    assert_eq!(c.msg("cannot_find_home"), "无法获取 HOME 环境变量");
}

#[test]
fn test_msg_en() {
    let mut c = catalog();
    c.set_lang(Lang::En);
    assert_eq!(c.msg("cannot_find_home"), "Cannot find HOME environment variable");
}

#[test]
fn test_msg_unknown_key_returns_key() {
    let c = catalog();
    assert_eq!(c.msg("nonexistent_key_12345"), "nonexistent_key_12345");
}

#[test]
fn test_msg_with_format_args() {
    let mut c = catalog();
    c.set_lang(Lang::En);
    let result = c.msg("jdk_installed");
    assert!(result.contains("{}"));
}

#[test]
fn init_messages_keeps_a_filled_catalog() {
    let mut c = catalog();
    c.init_messages();
    c.set_lang(Lang::Zh);
    assert_eq!(c.msg("pinned"), "已锁定");
    assert!(!Catalog::new().contains_key("pinned"));
}

#[test]
fn init_messages_twice_is_once() {
    let mut once = Catalog::new();
    once.init_messages();
    let mut twice = Catalog::new();
    twice.init_messages();
    twice.init_messages();
    assert_eq!(once.entries, twice.entries);
    assert_eq!(twice.entries.len(), 34);
}

#[test]
fn lang_table_of_lowercase_names() {
    assert_eq!(Lang::lang_of_lowercase("zh-cn"), Some(Lang::Zh));
    assert_eq!(Lang::lang_of_lowercase("en-us"), Some(Lang::En));
    assert_eq!(Lang::lang_of_lowercase("ZH"), None);
    assert_eq!(Lang::parse_lang("EN-US"), Some(Lang::En));
}
