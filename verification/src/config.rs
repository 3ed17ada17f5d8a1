//! Local configuration: settings read from `~/.jex/config.toml` and the
//! `[fmt]` table of `jex.toml`.

use vstd::prelude::*;
use crate::error::{Error, Result};
use crate::fmt::{FmtConfig, Style, parse_style, style_named};
use crate::i18n::Lang;
use crate::num::parse_unsigned;
use crate::text::{
    split, views, str_split, str_eq, owned, concat2, concat3, push_str, chars_of, string_of,
    uppercase, lowercase,
};

verus! {

/// toml's dynamically typed value.
#[verifier::external_type_specification]
#[verifier::external_body]
pub struct ExTomlValue(toml::Value);

/// A TOML value as read here: its kind and contents, and the text toml
/// writes for it (its `Display`).
#[derive(Debug)]
pub struct TomlItem {
    pub text: String,
    pub kind: TomlKind,
}

/// The kinds of TOML values the library looks into; floats and dates are
/// `Other`: toml's value, carried through, known by its text only.
#[derive(Debug)]
pub enum TomlKind {
    Str(String),
    Integer(i64),
    Boolean(bool),
    Array(Vec<TomlItem>),
    Table(Vec<(String, TomlItem)>),
    Other(toml::Value),
}

/// What toml's `FromStr` for `Value` makes of a text, as `TomlItem`s, or
/// the message of its error.
pub uninterp spec fn toml_parse(content: Seq<char>) -> std::result::Result<TomlItem, Seq<char>>;

/// A toml value as a `TomlItem`: its `Display` text and its contents,
/// each part converted in the same way.
#[verifier::external_body]
fn toml_item(v: &toml::Value) -> TomlItem {
    let kind = match v {
        toml::Value::String(x) => TomlKind::Str(x.clone()),
        toml::Value::Integer(i) => TomlKind::Integer(*i),
        toml::Value::Boolean(b) => TomlKind::Boolean(*b),
        toml::Value::Array(a) => TomlKind::Array(a.iter().map(toml_item).collect()),
        toml::Value::Table(t) => TomlKind::Table(t.iter().map(|(k, x)| (k.clone(), toml_item(x))).collect()),
        toml::Value::Float(_) => TomlKind::Other(v.clone()),
        toml::Value::Datetime(_) => TomlKind::Other(v.clone()),
    };
    TomlItem { text: v.to_string(), kind }
}

/// The toml value an item stands for, each part converted in the same
/// way (the inverse of `toml_item`; the item's text is not read).
#[verifier::external_body]
fn toml_value_of(v: &TomlItem) -> toml::Value {
    match &v.kind {
        TomlKind::Str(x) => toml::Value::String(x.clone()),
        TomlKind::Integer(i) => toml::Value::Integer(*i),
        TomlKind::Boolean(b) => toml::Value::Boolean(*b),
        TomlKind::Array(a) => toml::Value::Array(a.iter().map(toml_value_of).collect()),
        TomlKind::Table(t) => toml::Value::Table(t.iter().map(|(k, x)| (k.clone(), toml_value_of(x))).collect()),
        TomlKind::Other(x) => x.clone(),
    }
}

/// What `toml::to_string_pretty` writes for the value an item stands for
/// (see `toml_value_of`), or its error's message.
pub uninterp spec fn toml_pretty_text(v: TomlItem) -> std::result::Result<Seq<char>, Seq<char>>;

/// toml's pretty text of the value an item stands for
/// (`toml::to_string_pretty`), or its error's message: `toml_pretty_text`
/// of the item.
#[verifier::external_body]
fn toml_pretty(v: &TomlItem) -> (r: std::result::Result<String, String>)
    ensures
        match r {
            Ok(t) => toml_pretty_text(*v) == std::result::Result::<Seq<char>, Seq<char>>::Ok(t@),
            Err(m) => toml_pretty_text(*v) == std::result::Result::<Seq<char>, Seq<char>>::Err(m@),
        },
{
    toml::to_string_pretty(&toml_value_of(v)).map_err(|e| e.to_string())
}

/// Parses TOML text (toml's `FromStr` for `Value`), giving the value as a
/// `TomlItem` or the error's message; the outcome is `toml_parse` of the
/// text.
#[verifier::external_body]
fn parse_toml(content: &str) -> (r: std::result::Result<TomlItem, String>)
    ensures
        match r {
            Ok(v) => toml_parse(content@) == std::result::Result::<TomlItem, Seq<char>>::Ok(v),
            Err(m) => toml_parse(content@) == std::result::Result::<TomlItem, Seq<char>>::Err(m@),
        },
{
    match content.parse::<toml::Value>() {
        Ok(v) => Ok(toml_item(&v)),
        Err(e) => Err(e.to_string()),
    }
}

/// The entry `key` of a table (toml's `Value::get` with a string key):
/// none for other values.
pub open spec fn toml_entry(v: TomlItem, key: Seq<char>) -> Option<TomlItem> {
    match v.kind {
        TomlKind::Table(entries) => entry_in(entries@, key),
        _ => None,
    }
}

/// The first entry named `key`.
pub open spec fn entry_in(entries: Seq<(String, TomlItem)>, key: Seq<char>) -> Option<TomlItem>
    decreases entries.len(),
{
    if entries.len() == 0 {
        None
    } else if entries[0].0@ == key {
        Some(entries[0].1)
    } else {
        entry_in(entries.drop_first(), key)
    }
}

/// The value reached from `v` through the entries `keys`, in order.
pub open spec fn toml_lookup(v: TomlItem, keys: Seq<Seq<char>>) -> Option<TomlItem>
    decreases keys.len(),
{
    if keys.len() == 0 {
        Some(v)
    } else {
        match toml_entry(v, keys[0]) {
            Some(w) => toml_lookup(w, keys.drop_first()),
            None => None,
        }
    }
}

/// The string a value holds.
pub open spec fn toml_str(v: Option<TomlItem>) -> Option<String> {
    match v {
        Some(TomlItem { kind: TomlKind::Str(s), .. }) => Some(s),
        _ => None,
    }
}

/// The boolean a value holds.
pub open spec fn toml_bool(v: Option<TomlItem>) -> Option<bool> {
    match v {
        Some(TomlItem { kind: TomlKind::Boolean(b), .. }) => Some(b),
        _ => None,
    }
}

fn get_entry<'a>(v: &'a TomlItem, key: &str) -> (r: Option<&'a TomlItem>)
    ensures
        match r {
            Some(w) => toml_entry(*v, key@) == Some(*w),
            None => toml_entry(*v, key@) is None,
        },
{
    match &v.kind {
        TomlKind::Table(entries) => {
            let mut i: usize = 0;
            assert(entries@.subrange(0, entries@.len() as int) =~= entries@);
            while i < entries.len()
                invariant
                    i <= entries@.len(),
                    entry_in(entries@, key@) == entry_in(entries@.subrange(i as int, entries@.len() as int), key@),
                    toml_entry(*v, key@) == entry_in(entries@, key@),
                decreases entries@.len() - i,
            {
                let ghost rest = entries@.subrange(i as int, entries@.len() as int);
                assert(rest.drop_first() =~= entries@.subrange(i + 1, entries@.len() as int));
                assert(rest[0] == entries@[i as int]);
                if str_eq(entries[i].0.as_str(), key) {
                    assert(entry_in(rest, key@) == Some(rest[0].1));
                    return Some(&entries[i].1);
                }
                i += 1;
            }
            None
        },
        _ => None,
    }
}

fn item_str(v: Option<&TomlItem>) -> (r: Option<String>)
    ensures
        r == toml_str(match v {
            Some(w) => Some(*w),
            None => None,
        }),
{
    match v {
        Some(w) => match &w.kind {
            TomlKind::Str(s) => Some(s.clone()),
            _ => None,
        },
        None => None,
    }
}

fn item_bool(v: Option<&TomlItem>) -> (r: Option<bool>)
    ensures
        r == toml_bool(match v {
            Some(w) => Some(*w),
            None => None,
        }),
{
    match v {
        Some(w) => match &w.kind {
            TomlKind::Boolean(b) => Some(*b),
            _ => None,
        },
        None => None,
    }
}

// ───────────────────────────── [fmt] ─────────────────────────────

/// The strings of a list whose items may not be strings, in order.
pub open spec fn strings_of(items: Seq<Option<String>>) -> Seq<Seq<char>>
    decreases items.len(),
{
    if items.len() == 0 {
        Seq::empty()
    } else {
        match items.last() {
            Some(s) => strings_of(items.drop_last()).push(s@),
            None => strings_of(items.drop_last()),
        }
    }
}

/// `c` is the formatting configuration of the given `[fmt]` settings:
/// the default configuration, with the style when it names one, the flags
/// when given, and the exclusions (the string items) when given.
pub open spec fn settings_give(
    c: FmtConfig,
    style: Option<String>,
    aosp: Option<bool>,
    skip_future: Option<bool>,
    exclude: Option<Vec<Option<String>>>,
) -> bool {
    settings_give_seq(
        c,
        style,
        aosp,
        skip_future,
        match exclude {
            Some(items) => Some(items@),
            None => None,
        },
    )
}

/// The formatting configuration from the settings of a `[fmt]` table: the
/// default configuration, with the style when it names one, the flags
/// when given, and the exclusions (its string items) when given.
pub fn apply_fmt_settings(
    style: Option<String>,
    aosp: Option<bool>,
    skip_future: Option<bool>,
    exclude: Option<Vec<Option<String>>>,
) -> (r: FmtConfig)
    ensures
        settings_give(r, style, aosp, skip_future, exclude),
{
    let mut config = FmtConfig::default();
    match style {
        Some(s) => match parse_style(s.as_str()) {
            Ok(st) => {
                config.style = st;
            },
            Err(_) => {},
        },
        None => {},
    }
    match aosp {
        Some(b) => {
            config.aosp = b;
        },
        None => {},
    }
    match skip_future {
        Some(b) => {
            config.skip_future = b;
        },
        None => {},
    }
    match exclude {
        Some(items) => {
            let mut ex: Vec<String> = Vec::new();
            let mut i: usize = 0;
            assert(items@.take(0) =~= Seq::<Option<String>>::empty());
            while i < items.len()
                invariant
                    i <= items@.len(),
                    views(ex@) == strings_of(items@.take(i as int)),
                decreases items@.len() - i,
            {
                assert(items@.take(i + 1).drop_last() =~= items@.take(i as int));
                assert(items@.take(i + 1).last() == items@[i as int]);
                match &items[i] {
                    Some(s) => {
                        let ghost e0 = views(ex@);
                        ex.push(s.clone());
                        assert(views(ex@) =~= e0.push(s@));
                    },
                    None => {},
                }
                i += 1;
            }
            assert(items@.take(i as int) =~= items@);
            config.exclude = ex;
        },
        None => {},
    }
    config
}

/// Message prefix of the error for unreadable `jex.toml` text.
pub open spec fn fmt_parse_error(msg: Seq<char>) -> Seq<char> {
    "解析 jex.toml 失败: "@ + msg
}

/// The strings of the items of a `[fmt]` `exclude` array, each `None`
/// where the item is not a string.
pub open spec fn exclude_items(v: Option<TomlItem>) -> Option<Seq<Option<String>>> {
    match v {
        Some(TomlItem { kind: TomlKind::Array(items), .. }) => Some(
            items@.map_values(|it: TomlItem| toml_str(Some(it))),
        ),
        _ => None,
    }
}

/// The formatting configuration of a parsed `jex.toml`.
pub open spec fn fmt_config_of(c: FmtConfig, doc: TomlItem) -> bool {
    let style = toml_str(toml_lookup(doc, seq!["fmt"@, "style"@]));
    let aosp = toml_bool(toml_lookup(doc, seq!["fmt"@, "aosp"@]));
    let skip = toml_bool(toml_lookup(doc, seq!["fmt"@, "skip_future"@]));
    &&& settings_give_seq(c, style, aosp, skip, exclude_items(toml_lookup(doc, seq!["fmt"@, "exclude"@])))
}

/// `settings_give` with the exclusions given as a sequence.
pub open spec fn settings_give_seq(
    c: FmtConfig,
    style: Option<String>,
    aosp: Option<bool>,
    skip_future: Option<bool>,
    exclude: Option<Seq<Option<String>>>,
) -> bool {
    &&& c.style == match style {
        Some(s) => match style_named(uppercase(s@)) {
            Some(st) => st,
            None => Style::Google,
        },
        None => Style::Google,
    }
    &&& c.aosp == match aosp {
        Some(b) => b,
        None => false,
    }
    &&& c.skip_future == match skip_future {
        Some(b) => b,
        None => false,
    }
    &&& views(c.exclude@) == match exclude {
        Some(items) => strings_of(items),
        None => seq!["build/"@, "target/"@],
    }
}

/// The lookup of `section.field` through two entries.
proof fn lemma_lookup_two(doc: TomlItem, section: Seq<char>, field: Seq<char>)
    ensures
        toml_lookup(doc, seq![section, field]) == match toml_entry(doc, section) {
            Some(t) => toml_entry(t, field),
            None => None,
        },
{
    let keys = seq![section, field];
    assert(keys.drop_first() =~= seq![field]);
    assert(seq![field].drop_first() =~= Seq::<Seq<char>>::empty());
    match toml_entry(doc, section) {
        Some(t) => {
            assert(toml_lookup(t, seq![field]) == match toml_entry(t, field) {
                Some(w) => toml_lookup(w, Seq::<Seq<char>>::empty()),
                None => None,
            });
        },
        None => {},
    }
}

/// The formatting configuration of a `jex.toml` text: the default
/// configuration with its `[fmt]` table's `style` (when it names a style),
/// `aosp` and `skip_future` (when booleans) and `exclude` (the string
/// items, when an array); fails with toml's message when the text is not
/// TOML.
pub fn read_fmt_config(content: &str) -> (r: Result<FmtConfig>)
    ensures
        match toml_parse(content@) {
            std::result::Result::Ok(doc) => r matches Ok(c) && fmt_config_of(c, doc),
            std::result::Result::Err(m) => r matches Err(e) && e.0@ == fmt_parse_error(m),
        },
{
    let doc = match parse_toml(content) {
        Ok(v) => v,
        Err(m) => {
            let err = Error::new(concat2("解析 jex.toml 失败: ", m.as_str()));
            return Err(err);
        },
    };
    let section = get_entry(&doc, "fmt");
    let (style, aosp, skip, exclude) = match section {
        Some(t) => {
            let style = item_str(get_entry(t, "style"));
            let aosp = item_bool(get_entry(t, "aosp"));
            let skip = item_bool(get_entry(t, "skip_future"));
            let exclude: Option<Vec<Option<String>>> = match get_entry(t, "exclude") {
                Some(v) => match &v.kind {
                    TomlKind::Array(items) => {
                        let mut out: Vec<Option<String>> = Vec::new();
                        let mut i: usize = 0;
                        while i < items.len()
                            invariant
                                i <= items@.len(),
                                out@ == items@.take(i as int).map_values(|it: TomlItem| toml_str(Some(it))),
                            decreases items@.len() - i,
                        {
                            out.push(item_str(Some(&items[i])));
                            assert(items@.take(i + 1).map_values(|it: TomlItem| toml_str(Some(it))) =~= items@.take(
                                i as int,
                            ).map_values(|it: TomlItem| toml_str(Some(it))).push(toml_str(Some(items@[i as int]))));
                            i += 1;
                        }
                        assert(items@.take(i as int) =~= items@);
                        Some(out)
                    },
                    _ => None,
                },
                None => None,
            };
            (style, aosp, skip, exclude)
        },
        None => (None, None, None, None),
    };
    proof {
        lemma_lookup_two(doc, "fmt"@, "style"@);
        lemma_lookup_two(doc, "fmt"@, "aosp"@);
        lemma_lookup_two(doc, "fmt"@, "skip_future"@);
        lemma_lookup_two(doc, "fmt"@, "exclude"@);
        reveal_strlit("fmt");
        reveal_strlit("style");
        reveal_strlit("aosp");
        reveal_strlit("skip_future");
        reveal_strlit("exclude");
    }
    let ghost ex_seq = match &exclude {
        Some(v) => Some(v@),
        None => None,
    };
    let c = apply_fmt_settings(style, aosp, skip, exclude);
    assert(settings_give_seq(c, style, aosp, skip, ex_seq));
    Ok(c)
}

// ───────────────────────────── config.toml ─────────────────────────────

/// Message for a dotted key that is not in the configuration.
pub open spec fn key_not_found(key: Seq<char>) -> Seq<char> {
    "Key not found: "@ + key
}

/// The value at a dotted key (such as `i18n.lang`) of `config.toml` text,
/// written as toml writes it.  Fails with toml's message when the text is
/// not TOML, and with `Key not found` when a part of the key is missing.
pub fn config_get_in(content: &str, key: &str) -> (r: Result<String>)
    ensures
        match toml_parse(content@) {
            std::result::Result::Err(m) => r matches Err(e) && e.0@ == "Invalid TOML: "@ + m,
            std::result::Result::Ok(doc) => match toml_lookup(doc, split(key@, '.')) {
                Some(v) => r matches Ok(t) && t@ == v.text@,
                None => r matches Err(e) && e.0@ == key_not_found(key@),
            },
        },
{
    let doc = match parse_toml(content) {
        Ok(v) => v,
        Err(m) => {
            return Err(Error::new(concat2("Invalid TOML: ", m.as_str())));
        },
    };
    let parts = str_split(key, '.');
    let ghost ks = views(parts@);
    let mut cur = &doc;
    let mut i: usize = 0;
    assert(ks.subrange(0, ks.len() as int) =~= ks);
    while i < parts.len()
        invariant
            i <= parts@.len(),
            ks == views(parts@),
            ks == split(key@, '.'),
            toml_parse(content@) == std::result::Result::<TomlItem, Seq<char>>::Ok(doc),
            toml_lookup(doc, ks) == toml_lookup(*cur, ks.subrange(i as int, ks.len() as int)),
        decreases parts@.len() - i,
    {
        let ghost rest = ks.subrange(i as int, ks.len() as int);
        assert(rest.drop_first() =~= ks.subrange(i + 1, ks.len() as int));
        assert(rest[0] == parts@[i as int]@);
        cur = match get_entry(cur, parts[i].as_str()) {
            Some(v) => v,
            None => {
                assert(toml_lookup(*cur, rest) is None);
                let e = Error::new(concat2("Key not found: ", key));
                assert(e.0@ == key_not_found(key@));
                return Err(e);
            },
        };
        i += 1;
    }
    assert(ks.subrange(i as int, ks.len() as int) =~= Seq::<Seq<char>>::empty());
    Ok(cur.text.clone())
}

/// `s` without surrounding `"` (`trim_matches('"')`).
pub open spec fn unquoted(s: Seq<char>) -> Seq<char> {
    crate::deps::trim_quotes(s)
}

/// An optional setting: the value read (as TOML text) without its quotes,
/// unless empty.
pub open spec fn optional_setting(raw: Option<String>) -> Option<Seq<char>> {
    match raw {
        Some(s) => if unquoted(s@).len() > 0 {
            Some(unquoted(s@))
        } else {
            None
        },
        None => None,
    }
}

/// An optional setting from the value read at its key (`None` when the
/// key could not be read).
fn setting(raw: Option<String>) -> (r: Option<String>)
    ensures
        match r {
            Some(v) => optional_setting(raw) == Some(v@),
            None => optional_setting(raw) is None,
        },
{
    match raw {
        Some(s) => {
            let t = crate::deps::strip_quotes(s.as_str());
            if crate::text::str_is_empty(t.as_str()) {
                None
            } else {
                Some(t)
            }
        },
        None => None,
    }
}

/// `jdk.default_version`, from the value read at that key.
pub fn config_default_jdk_version(raw: Option<String>) -> (r: Option<String>)
    ensures
        match r {
            Some(v) => optional_setting(raw) == Some(v@),
            None => optional_setting(raw) is None,
        },
{
    setting(raw)
}

/// `jdk.mirror`, from the value read at that key.
pub fn config_jdk_mirror(raw: Option<String>) -> (r: Option<String>)
    ensures
        match r {
            Some(v) => optional_setting(raw) == Some(v@),
            None => optional_setting(raw) is None,
        },
{
    setting(raw)
}

/// `proxy.http`, from the value read at that key.
pub fn config_proxy_http(raw: Option<String>) -> (r: Option<String>)
    ensures
        match r {
            Some(v) => optional_setting(raw) == Some(v@),
            None => optional_setting(raw) is None,
        },
{
    setting(raw)
}

/// `proxy.https`, from the value read at that key.
pub fn config_proxy_https(raw: Option<String>) -> (r: Option<String>)
    ensures
        match r {
            Some(v) => optional_setting(raw) == Some(v@),
            None => optional_setting(raw) is None,
        },
{
    setting(raw)
}

/// `maven.central_mirror`, from the value read at that key.
pub fn config_maven_mirror(raw: Option<String>) -> (r: Option<String>)
    ensures
        match r {
            Some(v) => optional_setting(raw) == Some(v@),
            None => optional_setting(raw) is None,
        },
{
    setting(raw)
}

/// Default cache limit: 1 GiB.
pub open spec fn default_cache_max() -> nat {
    1024 * 1024 * 1024
}

/// `cache.max_size` in bytes, from the value read at that key: the
/// unquoted value as an unsigned number, else 1 GiB.
pub fn config_cache_max_size(raw: Option<String>) -> (r: u64)
    ensures
        r == match raw {
            Some(s) => match parse_unsigned(unquoted(s@), u64::MAX as nat) {
                Some(n) => n,
                None => default_cache_max(),
            },
            None => default_cache_max(),
        },
{
    match raw {
        Some(s) => {
            let t = crate::deps::strip_quotes(s.as_str());
            match crate::num::parse_u64(t.as_str()) {
                Some(n) => n,
                None => 1024 * 1024 * 1024,
            }
        },
        None => 1024 * 1024 * 1024,
    }
}

/// Language setting: from `[i18n] lang` of `config.toml` when it names a
/// language, else from `JEX_LANG` when it names one, else English.
pub fn read_language_config(config_lang: Option<&str>, env_lang: Option<&str>) -> (r: Lang)
    ensures
        r == (if config_lang is Some && crate::i18n::lang_named(config_lang->0@) is Some {
            crate::i18n::lang_named(config_lang->0@)->0
        } else if env_lang is Some && crate::i18n::lang_named(env_lang->0@) is Some {
            crate::i18n::lang_named(env_lang->0@)->0
        } else {
            Lang::En
        }),
{
    match config_lang {
        Some(c) => match Lang::parse_lang(c) {
            Some(l) => {
                return l;
            },
            None => {},
        },
        None => {},
    }
    match env_lang {
        Some(e) => match Lang::parse_lang(e) {
            Some(l) => l,
            None => Lang::En,
        },
        None => Lang::En,
    }
}

/// The `[i18n] lang` string of `config.toml` text: none when the text is
/// absent, is not TOML, or has no such string.
pub open spec fn config_lang_of(config_text: Option<Seq<char>>) -> Option<Seq<char>> {
    match config_text {
        Some(t) => match toml_parse(t) {
            std::result::Result::Ok(doc) => match toml_str(toml_lookup(doc, seq!["i18n"@, "lang"@])) {
                Some(s) => Some(s@),
                None => None,
            },
            std::result::Result::Err(_) => None,
        },
        None => None,
    }
}

/// The language chosen from a configured name and `JEX_LANG`: the first
/// that names a language, else English.
pub open spec fn lang_choice(config_lang: Option<Seq<char>>, env_lang: Option<Seq<char>>) -> Lang {
    if config_lang is Some && crate::i18n::lang_named(config_lang->0) is Some {
        crate::i18n::lang_named(config_lang->0)->0
    } else if env_lang is Some && crate::i18n::lang_named(env_lang->0) is Some {
        crate::i18n::lang_named(env_lang->0)->0
    } else {
        Lang::En
    }
}

/// Language setting from the text of `config.toml` (if it could be read)
/// and `JEX_LANG` (if set): `[i18n] lang` when it names a language, else
/// `JEX_LANG` when it names one, else English.
pub fn read_language_config_in(config_text: Option<&str>, env_lang: Option<&str>) -> (r: Lang)
    ensures
        r == lang_choice(
            config_lang_of(
                match config_text {
                    Some(t) => Some(t@),
                    None => None,
                },
            ),
            match env_lang {
                Some(e) => Some(e@),
                None => None,
            },
        ),
{
    let configured: Option<String> = match config_text {
        Some(t) => match parse_toml(t) {
            Ok(doc) => {
                let sec = get_entry(&doc, "i18n");
                let ghost keys = seq!["i18n"@, "lang"@];
                assert(keys.drop_first() =~= seq!["lang"@]);
                assert(seq!["lang"@].drop_first() =~= Seq::<Seq<char>>::empty());
                proof {
                    reveal_with_fuel(toml_lookup, 3);
                }
                match sec {
                    Some(w) => {
                        let l = get_entry(w, "lang");
                        assert(toml_lookup(doc, keys) == toml_lookup(*w, seq!["lang"@]));
                        assert(toml_lookup(*w, seq!["lang"@]) == match l {
                            Some(x) => Some(*x),
                            None => None,
                        });
                        item_str(l)
                    },
                    None => {
                        assert(toml_lookup(doc, keys) is None);
                        None
                    },
                }
            },
            Err(_) => None,
        },
        None => None,
    };
    assert(config_lang_of(
        match config_text {
            Some(t) => Some(t@),
            None => None,
        },
    ) == match configured {
        Some(c) => Some(c@),
        None => None,
    });
    let r = match &configured {
        Some(c) => read_language_config(Some(c.as_str()), env_lang),
        None => read_language_config(None, env_lang),
    };
    r
}

/// A value given to `jex config set`, typed as it will be stored.
#[derive(Debug, Clone, PartialEq)]
pub enum ConfigValue {
    Boolean(bool),
    Integer(i64),
    Text(String),
}

/// Message for a key that is not `section.field`.
pub open spec fn bad_key_message() -> Seq<char> {
    "Key must be section.field (e.g. i18n.lang)"@
}

/// The section and field of a dotted key, and the value typed: fails
/// unless the key has exactly two `.`-separated parts.
pub fn config_set_plan(key: &str, value: &str) -> (r: Result<(String, String, ConfigValue)>)
    ensures
        match r {
            Ok((s, f, v)) => split(key@, '.').len() == 2 && s@ == split(key@, '.')[0] && f@
                == split(key@, '.')[1] && match v {
                ConfigValue::Boolean(b) => (value@ == "true"@ && b) || (value@ == "false"@ && !b),
                ConfigValue::Integer(i) => value@ != "true"@ && value@ != "false"@
                    && crate::num::parse_signed(value@) == Some(i as int),
                ConfigValue::Text(t) => value@ != "true"@ && value@ != "false"@
                    && crate::num::parse_signed(value@) is None && t@ == value@,
            },
            Err(e) => split(key@, '.').len() != 2 && e.0@ == bad_key_message(),
        },
{
    let parts = str_split(key, '.');
    proof {
        assert(views(parts@).len() == parts@.len());
    }
    if parts.len() != 2 {
        return Err(Error::new(owned("Key must be section.field (e.g. i18n.lang)")));
    }
    proof {
        assert(views(parts@)[0] == parts@[0]@);
        assert(views(parts@)[1] == parts@[1]@);
    }
    let v = if str_eq(value, "true") {
        ConfigValue::Boolean(true)
    } else if str_eq(value, "false") {
        ConfigValue::Boolean(false)
    } else {
        match crate::num::parse_i64(value) {
            Some(i) => ConfigValue::Integer(i),
            None => ConfigValue::Text(owned(value)),
        }
    };
    Ok((parts[0].clone(), parts[1].clone(), v))
}

// ───────────────────────────── config set ─────────────────────────────

/// Replacing the first entry named as `x` keeps the other names' entries
/// and gives that name `x`'s value.
pub proof fn lemma_entry_in_update(es: Seq<(String, TomlItem)>, idx: int, x: (String, TomlItem), key: Seq<char>)
    requires
        0 <= idx < es.len(),
        es[idx].0@ == x.0@,
        forall|j: int| 0 <= j < idx ==> (#[trigger] es[j]).0@ != x.0@,
    ensures
        entry_in(es.update(idx, x), key) == if key == x.0@ {
            Some(x.1)
        } else {
            entry_in(es, key)
        },
    decreases es.len(),
{
    if idx == 0 {
        assert(es.update(0, x).drop_first() =~= es.drop_first());
    } else {
        assert(es[0].0@ != x.0@);
        assert(es.update(idx, x).drop_first() =~= es.drop_first().update(idx - 1, x));
        assert forall|j: int| 0 <= j < idx - 1 implies (#[trigger] es.drop_first()[j]).0@ != x.0@ by {
            assert(es.drop_first()[j] == es[j + 1]);
        }
        lemma_entry_in_update(es.drop_first(), idx - 1, x, key);
    }
}

/// An entry added at the end is found only when no earlier one has its
/// name.
pub proof fn lemma_entry_in_push(es: Seq<(String, TomlItem)>, x: (String, TomlItem), key: Seq<char>)
    ensures
        entry_in(es.push(x), key) == if entry_in(es, key) is Some {
            entry_in(es, key)
        } else if x.0@ == key {
            Some(x.1)
        } else {
            None
        },
    decreases es.len(),
{
    if es.len() == 0 {
        assert(es.push(x).drop_first() =~= Seq::<(String, TomlItem)>::empty());
        assert(entry_in(Seq::<(String, TomlItem)>::empty(), key) is None);
        assert(es.push(x)[0] == x);
    } else {
        assert(es.push(x).drop_first() =~= es.drop_first().push(x));
        assert(es.push(x)[0] == es[0]);
        lemma_entry_in_push(es.drop_first(), x, key);
    }
}

/// The entry found is the first with the name.
pub proof fn lemma_entry_in_first(es: Seq<(String, TomlItem)>, key: Seq<char>, i: int)
    requires
        0 <= i <= es.len(),
        forall|j: int| 0 <= j < i ==> (#[trigger] es[j]).0@ != key,
    ensures
        i < es.len() && es[i].0@ == key ==> entry_in(es, key) == Some(es[i].1),
        i == es.len() ==> entry_in(es, key) is None,
    decreases i,
{
    if i > 0 {
        assert forall|j: int| 0 <= j < i - 1 implies (#[trigger] es.drop_first()[j]).0@ != key by {
            assert(es.drop_first()[j] == es[j + 1]);
        }
        assert(es[0].0@ != key);
        lemma_entry_in_first(es.drop_first(), key, i - 1);
    } else if es.len() > 0 {
    }
}

/// Taking out an entry with another name keeps the entry found for `key`.
pub proof fn lemma_entry_in_remove(es: Seq<(String, TomlItem)>, i: int, key: Seq<char>)
    requires
        0 <= i < es.len(),
        es[i].0@ != key,
    ensures
        entry_in(es.remove(i), key) == entry_in(es, key),
    decreases es.len(),
{
    if i == 0 {
        assert(es.remove(0) =~= es.drop_first());
    } else {
        assert(es.remove(i).drop_first() =~= es.drop_first().remove(i - 1));
        assert(es.remove(i)[0] == es[0]);
        lemma_entry_in_remove(es.drop_first(), i - 1, key);
    }
}

/// Position of the first entry named `key`.
fn find_entry(entries: &Vec<(String, TomlItem)>, key: &str) -> (r: Option<usize>)
    ensures
        match r {
            Some(i) => i < entries@.len() && entries@[i as int].0@ == key@ && entry_in(entries@, key@)
                == Some(entries@[i as int].1) && forall|j: int|
                0 <= j < i ==> (#[trigger] entries@[j]).0@ != key@,
            None => entry_in(entries@, key@) is None,
        },
{
    let mut i: usize = 0;
    while i < entries.len()
        invariant
            i <= entries@.len(),
            forall|j: int| 0 <= j < i ==> (#[trigger] entries@[j]).0@ != key@,
        decreases entries@.len() - i,
    {
        if str_eq(entries[i].0.as_str(), key) {
            proof {
                lemma_entry_in_first(entries@, key@, i as int);
            }
            return Some(i);
        }
        i += 1;
    }
    proof {
        lemma_entry_in_first(entries@, key@, i as int);
    }
    None
}

/// Sets the entry `key` of a table's entries: the first with the name is
/// replaced in place, else one is added at the end.
fn set_entry(entries: &mut Vec<(String, TomlItem)>, key: &str, item: TomlItem)
    ensures
        entry_in(final(entries)@, key@) == Some(item),
        forall|k: Seq<char>| k != key@ ==> entry_in(final(entries)@, k) == entry_in(old(entries)@, k),
{
    let ghost e0 = entries@;
    let name = owned(key);
    let ghost x = (name, item);
    match find_entry(entries, key) {
        Some(i) => {
            entries.set(i, (name, item));
            assert(entries@ == e0.update(i as int, x));
            proof {
                lemma_entry_in_update(e0, i as int, x, key@);
                assert forall|k: Seq<char>| k != key@ implies entry_in(entries@, k) == entry_in(e0, k) by {
                    lemma_entry_in_update(e0, i as int, x, k);
                }
            }
        },
        None => {
            entries.push((name, item));
            assert(entries@ == e0.push(x));
            proof {
                lemma_entry_in_push(e0, x, key@);
                assert forall|k: Seq<char>| k != key@ implies entry_in(entries@, k) == entry_in(e0, k) by {
                    lemma_entry_in_push(e0, x, k);
                }
            }
        },
    }
}

/// Message when `config.toml` is TOML but not a table.
pub open spec fn config_not_table_message() -> Seq<char> {
    "config.toml is not a table"@
}

/// Message when a section of `config.toml` is not a table.
pub open spec fn section_not_table_message(section: Seq<char>) -> Seq<char> {
    "Not a table: "@ + section
}

/// The entries of the configuration to update: those of the existing text
/// when it parses, none when there is no text or it does not parse; `None`
/// when it parses to a value that is not a table.
pub open spec fn config_base(existing: Option<Seq<char>>) -> Option<Seq<(String, TomlItem)>> {
    match existing {
        Some(t) => match toml_parse(t) {
            std::result::Result::Ok(doc) => match doc.kind {
                TomlKind::Table(es) => Some(es@),
                _ => None,
            },
            std::result::Result::Err(_) => Some(Seq::empty()),
        },
        None => Some(Seq::empty()),
    }
}

/// The fields of section `s`: none when the section is absent; `None` when
/// it is there but not a table.
pub open spec fn section_fields(es: Seq<(String, TomlItem)>, s: Seq<char>) -> Option<Seq<(String, TomlItem)>> {
    match entry_in(es, s) {
        Some(sec) => match sec.kind {
            TomlKind::Table(fs) => Some(fs@),
            _ => None,
        },
        None => Some(Seq::empty()),
    }
}

/// A value of kind `k` is what `jex config set` stores for the text
/// `value` (see `config_set_plan`).
pub open spec fn value_kind_ok(k: TomlKind, value: Seq<char>) -> bool {
    match k {
        TomlKind::Boolean(b) => (value == "true"@ && b) || (value == "false"@ && !b),
        TomlKind::Integer(i) => value != "true"@ && value != "false"@ && crate::num::parse_signed(value)
            == Some(i as int),
        TomlKind::Str(t) => value != "true"@ && value != "false"@ && crate::num::parse_signed(value) is None
            && t@ == value,
        _ => false,
    }
}

/// `doc` is the configuration `es` with the field `f` of section `s` set
/// to `value`, typed: every other section, and every other field of `s`,
/// is kept.
pub open spec fn config_updated(
    es: Seq<(String, TomlItem)>,
    s: Seq<char>,
    f: Seq<char>,
    value: Seq<char>,
    doc: TomlItem,
) -> bool {
    match doc.kind {
        TomlKind::Table(e2) => {
            &&& forall|k: Seq<char>| k != s ==> entry_in(e2@, k) == entry_in(es, k)
            &&& match entry_in(e2@, s) {
                Some(sec) => match sec.kind {
                    TomlKind::Table(f2) => {
                        &&& forall|k: Seq<char>|
                            k != f ==> entry_in(f2@, k) == entry_in(section_fields(es, s)->0, k)
                        &&& entry_in(f2@, f) matches Some(x) && value_kind_ok(x.kind, value)
                    },
                    _ => false,
                },
                None => false,
            }
        },
        _ => false,
    }
}

/// `r` is what `config_set_in` gives for the configuration `es` with the
/// field `f` of section `s` set to `value`: toml's pretty text of the
/// updated document (see `config_updated`), or that printer's error.
pub open spec fn set_outcome(
    es: Seq<(String, TomlItem)>,
    s: Seq<char>,
    f: Seq<char>,
    value: Seq<char>,
    r: Result<String>,
) -> bool {
    exists|doc: TomlItem|
        #[trigger] config_updated(es, s, f, value, doc) && match toml_pretty_text(doc) {
            std::result::Result::Ok(t) => r matches Ok(x) && x@ == t,
            std::result::Result::Err(m) => r matches Err(e) && e.0@ == m,
        }
}

/// The new text of `config.toml` after `jex config set key value`, from
/// its present text (if any): `key` must be `section.field`; the value is
/// stored as a boolean, an integer or a string (see `config_set_plan`),
/// every other setting kept, and the whole written as toml's pretty text.
/// A present text that is not TOML counts as empty.
pub fn config_set_in(existing: Option<&str>, key: &str, value: &str) -> (r: Result<String>)
    ensures
        split(key@, '.').len() != 2 ==> (r matches Err(e) && e.0@ == bad_key_message()),
        split(key@, '.').len() == 2 ==> match config_base(
            match existing {
                Some(t) => Some(t@),
                None => None,
            },
        ) {
            None => r matches Err(e) && e.0@ == config_not_table_message(),
            Some(es) => match section_fields(es, split(key@, '.')[0]) {
                None => r matches Err(e) && e.0@ == section_not_table_message(split(key@, '.')[0]),
                Some(_) => set_outcome(es, split(key@, '.')[0], split(key@, '.')[1], value@, r),
            },
        },
{
    let (section, field, cv) = match config_set_plan(key, value) {
        Ok(p) => p,
        Err(e) => {
            return Err(e);
        },
    };
    let ghost ex = match existing {
        Some(t) => Some(t@),
        None => None::<Seq<char>>,
    };
    let mut entries: Vec<(String, TomlItem)> = match existing {
        Some(t) => match parse_toml(t) {
            Ok(doc) => match doc.kind {
                TomlKind::Table(es) => es,
                _ => {
                    return Err(Error::new(owned("config.toml is not a table")));
                },
            },
            Err(_) => Vec::new(),
        },
        None => Vec::new(),
    };
    let ghost es = entries@;
    assert(config_base(ex) == Some(es));
    let kind = match cv {
        ConfigValue::Boolean(b) => TomlKind::Boolean(b),
        ConfigValue::Integer(i) => TomlKind::Integer(i),
        ConfigValue::Text(t) => TomlKind::Str(t),
    };
    assert(value_kind_ok(kind, value@));
    let item = TomlItem { text: String::new(), kind };
    let ghost it = item;
    let mut fields: Vec<(String, TomlItem)> = match find_entry(&entries, section.as_str()) {
        Some(i) => {
            let (_, sec) = entries.remove(i);
            proof {
                assert forall|k: Seq<char>| k != section@ implies entry_in(entries@, k) == entry_in(es, k) by {
                    lemma_entry_in_remove(es, i as int, k);
                }
            }
            match sec.kind {
                TomlKind::Table(fs) => fs,
                _ => {
                    return Err(Error::new(concat2("Not a table: ", section.as_str())));
                },
            }
        },
        None => Vec::new(),
    };
    let ghost e1 = entries@;
    assert(section_fields(es, section@) == Some(fields@));
    let ghost f0 = fields@;
    set_entry(&mut fields, field.as_str(), item);
    let ghost f1 = fields@;
    let sec_item = TomlItem { text: String::new(), kind: TomlKind::Table(fields) };
    let ghost si = sec_item;
    set_entry(&mut entries, section.as_str(), sec_item);
    let ghost e2 = entries@;
    let doc2 = TomlItem { text: String::new(), kind: TomlKind::Table(entries) };
    assert(entry_in(e2, section@) == Some(si));
    assert(forall|k: Seq<char>| k != section@ ==> entry_in(e2, k) == entry_in(es, k));
    assert(entry_in(f1, field@) == Some(it));
    assert(forall|k: Seq<char>| k != field@ ==> entry_in(f1, k) == entry_in(section_fields(es, section@)->0, k));
    assert(config_updated(es, section@, field@, value@, doc2));
    let r = match toml_pretty(&doc2) {
        Ok(t) => Ok(t),
        Err(m) => Err(Error::new(m)),
    };
    assert(match toml_pretty_text(doc2) {
        std::result::Result::Ok(t) => r matches Ok(x) && x@ == t,
        std::result::Result::Err(m) => r matches Err(e) && e.0@ == m,
    });
    assert(section@ == split(key@, '.')[0] && field@ == split(key@, '.')[1]);
    assert(config_updated(es, split(key@, '.')[0], split(key@, '.')[1], value@, doc2));
    assert(set_outcome(es, split(key@, '.')[0], split(key@, '.')[1], value@, r));
    r
}

} // verus!
