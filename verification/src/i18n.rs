//! Messages in Chinese and English.

use vstd::prelude::*;
use crate::text::{chars_of, lowercase, owned, seq_eq, str_eq, to_lowercase};

verus! {

/// The languages messages exist in.
#[derive(Debug, Clone, Copy, PartialEq, Eq)]
pub enum Lang {
    Zh,
    En,
}

/// The language a lower-cased name stands for.
pub open spec fn lang_of_lower(l: Seq<char>) -> Option<Lang> {
    if l == "zh"@ || l == "zh-cn"@ {
        Some(Lang::Zh)
    } else if l == "en"@ || l == "en-us"@ {
        Some(Lang::En)
    } else {
        None
    }
}

/// The language a name stands for, without regard to case.
pub open spec fn lang_named(s: Seq<char>) -> Option<Lang> {
    lang_of_lower(lowercase(s))
}

impl Lang {
    /// The language a name denotes: `zh`/`zh-cn` or `en`/`en-us`, in any case.
    pub fn parse_lang(s: &str) -> (r: Option<Lang>)
        ensures
            r == lang_named(s@),
    {
        let l = to_lowercase(s);
        Lang::lang_of_lowercase(l.as_str())
    }

    /// The language a lower-cased name denotes: `zh`/`zh-cn` or
    /// `en`/`en-us`.
    pub fn lang_of_lowercase(l: &str) -> (r: Option<Lang>)
        ensures
            r == lang_of_lower(l@),
    {
        if str_eq(l, "zh") || str_eq(l, "zh-cn") {
            Some(Lang::Zh)
        } else if str_eq(l, "en") || str_eq(l, "en-us") {
            Some(Lang::En)
        } else {
            None
        }
    }

    /// The language's code.
    pub fn as_str(&self) -> (r: &str)
        ensures
            r@ == (match self {
                Lang::Zh => "zh"@,
                Lang::En => "en"@,
            }),
    {
        match self {
            Lang::Zh => "zh",
            Lang::En => "en",
        }
    }
}

/// The built-in message table: key, Chinese text, English text.
pub open spec fn message_table() -> Seq<(Seq<char>, Seq<char>, Seq<char>)> {
    seq![
        ("cannot_find_home"@, "无法获取 HOME 环境变量"@, "Cannot find HOME environment variable"@),
        ("failed_get_home_dir"@, "无法获取用户主目录"@, "Failed to get user home directory"@),
        ("failed_get_home"@, "无法获取 HOME 目录"@, "Failed to get HOME directory"@),
        ("no_jex_toml"@, "当前目录没有 jex.toml，请先运行 jex init"@, "Current directory has no jex.toml, please run jex init first"@),
        ("jex_toml_exists"@, "当前目录已存在 jex.toml"@, "Current directory already has jex.toml"@),
        ("maven_central_failed"@, "请求 Maven Central 失败"@, "Failed to request Maven Central"@),
        ("compilation_failed"@, "编译失败"@, "Compilation failed"@),
        ("execution_failed"@, "运行失败"@, "Execution failed"@),
        ("download_jdk_failed"@, "下载 JDK 失败"@, "Failed to download JDK"@),
        ("extract_jdk_failed"@, "解压 JDK 失败"@, "Failed to extract JDK"@),
        ("extracted_jdk_not_found"@, "未找到解压后的 JDK 目录"@, "Could not find extracted JDK directory"@),
        ("jcmd_exec_failed"@, "jcmd 执行失败"@, "jcmd execution failed"@),
        ("jstat_gc_exec_failed"@, "jstat -gc 执行失败"@, "jstat -gc execution failed"@),
        ("parse_jstat_gc_failed"@, "无法解析 jstat -gc 输出"@, "Could not parse jstat -gc output"@),
        ("tui_init_failed"@, "TUI 初始化失败"@, "TUI initialization failed"@),
        ("jshell_stdin_failed"@, "无法获取 jshell stdin"@, "Could not get jshell stdin"@),
        ("jshell_stdout_failed"@, "无法获取 jshell stdout"@, "Could not get jshell stdout"@),
        ("jfr_file_too_small"@, "JFR 文件太小，不是有效的 JFR 文件"@, "JFR file too small, not a valid JFR file"@),
        ("jfr_header_incomplete"@, "JFR 头部不完整"@, "JFR header incomplete"@),
        ("workspace_not_found"@, "未找到工作区（缺少 jex-workspace.toml）"@, "Workspace not found (missing jex-workspace.toml)"@),
        ("workspace_config_exists"@, "工作区配置已存在"@, "Workspace configuration already exists"@),
        ("pinned"@, "已锁定"@, "Pinned"@),
        ("unpinned"@, "已解锁"@, "Unpinned"@),
        ("jdk_installed"@, "JDK {} 安装成功"@, "JDK {} installed successfully"@),
        ("downloading_jdk"@, "正在从 Adoptium 下载 JDK"@, "Downloading JDK from Adoptium"@),
        ("no_jdk_installed"@, "未安装任何 JDK 版本"@, "No JDK versions installed"@),
        ("installed_jdks"@, "已安装的 JDK 版本:"@, "Installed JDK versions:"@),
        ("no_data"@, "（无数据）"@, "(no data)"@),
        ("jvm_thread_info"@, "JVM 线程信息"@, "JVM thread info"@),
        ("thread_stats"@, "线程统计"@, "Thread statistics"@),
        ("total_threads"@, "总线程数"@, "Total threads"@),
        ("daemon_threads"@, "守护线程"@, "Daemon threads"@),
        ("deadlock_detected"@, "🔴 检测到死锁"@, "🔴 Deadlock detected"@),
        ("heap_overview"@, "堆内存概览"@, "Heap memory overview"@),
    ]
}

/// The current language and the message catalog.
pub struct Catalog {
    pub lang: Lang,
    pub entries: Vec<(String, String, String)>,
}

/// Views of catalog entries.
pub open spec fn entry_views(v: Seq<(String, String, String)>) -> Seq<(Seq<char>, Seq<char>, Seq<char>)> {
    v.map_values(|e: (String, String, String)| (e.0@, e.1@, e.2@))
}

/// Index of the first entry with key `k`, or the number of entries.
pub open spec fn entry_pos(es: Seq<(Seq<char>, Seq<char>, Seq<char>)>, k: Seq<char>) -> int
    decreases es.len(),
{
    if es.len() == 0 {
        0
    } else if es[0].0 == k {
        0
    } else {
        1 + entry_pos(es.drop_first(), k)
    }
}

/// The text of key `k` in language `lang`, or `k` itself when the catalog
/// has no such key.
pub open spec fn lookup(es: Seq<(Seq<char>, Seq<char>, Seq<char>)>, lang: Lang, k: Seq<char>) -> Seq<char> {
    let p = entry_pos(es, k);
    if 0 <= p < es.len() {
        match lang {
            Lang::Zh => es[p].1,
            Lang::En => es[p].2,
        }
    } else {
        k
    }
}

proof fn lemma_entry_pos_bounds(es: Seq<(Seq<char>, Seq<char>, Seq<char>)>, k: Seq<char>)
    ensures
        0 <= entry_pos(es, k) <= es.len(),
        entry_pos(es, k) < es.len() ==> es[entry_pos(es, k)].0 == k,
        forall|j: int| 0 <= j < entry_pos(es, k) ==> es[j].0 != k,
    decreases es.len(),
{
    if es.len() > 0 && es[0].0 != k {
        lemma_entry_pos_bounds(es.drop_first(), k);
        assert forall|j: int| 0 <= j < entry_pos(es, k) implies es[j].0 != k by {
            if j > 0 {
                assert(es[j] == es.drop_first()[j - 1]);
            }
        }
    }
}

/// What `init_messages` does: the language is kept; an empty catalog gets
/// the built-in table, a filled one stays as it is.
pub open spec fn init_effect(before: Catalog, after: Catalog) -> bool {
    &&& after.lang == before.lang
    &&& before.entries@.len() == 0 ==> entry_views(after.entries@) == message_table()
    &&& before.entries@.len() != 0 ==> after.entries@ == before.entries@
}

/// Initialising any catalog twice has the effect of initialising it once:
/// the second `init_messages` finds it filled and leaves it as it is.  A
/// catalog that starts empty, or already holds the built-in table, ends
/// with the built-in table: 34 messages.
pub proof fn lemma_init_messages_twice(c0: Catalog, c1: Catalog, c2: Catalog)
    requires
        init_effect(c0, c1),
        init_effect(c1, c2),
    ensures
        c2.lang == c1.lang,
        c2.entries@ == c1.entries@,
        (c0.entries@.len() == 0 || entry_views(c0.entries@) == message_table()) ==> entry_views(
            c2.entries@,
        ) == message_table() && c2.entries@.len() == 34,
{
    assert(message_table().len() == 34);
    assert(entry_views(c1.entries@).len() == c1.entries@.len());
    assert(entry_views(c0.entries@).len() == c0.entries@.len());
}

impl Catalog {
    /// An empty catalog in English.
    pub fn new() -> (c: Catalog)
        ensures
            c.lang == Lang::En,
            c.entries@.len() == 0,
    {
        Catalog { lang: Lang::En, entries: Vec::new() }
    }

    /// Fills an empty catalog with the built-in table; a filled one stays as
    /// it is.
    pub fn init_messages(&mut self)
        ensures
            init_effect(*old(self), *final(self)),
    {
        if self.entries.len() != 0 {
            return;
        }
        let mut entries: Vec<(String, String, String)> = Vec::new();
        entries.push((owned("cannot_find_home"), owned("无法获取 HOME 环境变量"), owned("Cannot find HOME environment variable")));
        entries.push((owned("failed_get_home_dir"), owned("无法获取用户主目录"), owned("Failed to get user home directory")));
        entries.push((owned("failed_get_home"), owned("无法获取 HOME 目录"), owned("Failed to get HOME directory")));
        entries.push((owned("no_jex_toml"), owned("当前目录没有 jex.toml，请先运行 jex init"), owned("Current directory has no jex.toml, please run jex init first")));
        entries.push((owned("jex_toml_exists"), owned("当前目录已存在 jex.toml"), owned("Current directory already has jex.toml")));
        entries.push((owned("maven_central_failed"), owned("请求 Maven Central 失败"), owned("Failed to request Maven Central")));
        entries.push((owned("compilation_failed"), owned("编译失败"), owned("Compilation failed")));
        entries.push((owned("execution_failed"), owned("运行失败"), owned("Execution failed")));
        entries.push((owned("download_jdk_failed"), owned("下载 JDK 失败"), owned("Failed to download JDK")));
        entries.push((owned("extract_jdk_failed"), owned("解压 JDK 失败"), owned("Failed to extract JDK")));
        entries.push((owned("extracted_jdk_not_found"), owned("未找到解压后的 JDK 目录"), owned("Could not find extracted JDK directory")));
        entries.push((owned("jcmd_exec_failed"), owned("jcmd 执行失败"), owned("jcmd execution failed")));
        entries.push((owned("jstat_gc_exec_failed"), owned("jstat -gc 执行失败"), owned("jstat -gc execution failed")));
        entries.push((owned("parse_jstat_gc_failed"), owned("无法解析 jstat -gc 输出"), owned("Could not parse jstat -gc output")));
        entries.push((owned("tui_init_failed"), owned("TUI 初始化失败"), owned("TUI initialization failed")));
        entries.push((owned("jshell_stdin_failed"), owned("无法获取 jshell stdin"), owned("Could not get jshell stdin")));
        entries.push((owned("jshell_stdout_failed"), owned("无法获取 jshell stdout"), owned("Could not get jshell stdout")));
        entries.push((owned("jfr_file_too_small"), owned("JFR 文件太小，不是有效的 JFR 文件"), owned("JFR file too small, not a valid JFR file")));
        entries.push((owned("jfr_header_incomplete"), owned("JFR 头部不完整"), owned("JFR header incomplete")));
        entries.push((owned("workspace_not_found"), owned("未找到工作区（缺少 jex-workspace.toml）"), owned("Workspace not found (missing jex-workspace.toml)")));
        entries.push((owned("workspace_config_exists"), owned("工作区配置已存在"), owned("Workspace configuration already exists")));
        entries.push((owned("pinned"), owned("已锁定"), owned("Pinned")));
        entries.push((owned("unpinned"), owned("已解锁"), owned("Unpinned")));
        entries.push((owned("jdk_installed"), owned("JDK {} 安装成功"), owned("JDK {} installed successfully")));
        entries.push((owned("downloading_jdk"), owned("正在从 Adoptium 下载 JDK"), owned("Downloading JDK from Adoptium")));
        entries.push((owned("no_jdk_installed"), owned("未安装任何 JDK 版本"), owned("No JDK versions installed")));
        entries.push((owned("installed_jdks"), owned("已安装的 JDK 版本:"), owned("Installed JDK versions:")));
        entries.push((owned("no_data"), owned("（无数据）"), owned("(no data)")));
        entries.push((owned("jvm_thread_info"), owned("JVM 线程信息"), owned("JVM thread info")));
        entries.push((owned("thread_stats"), owned("线程统计"), owned("Thread statistics")));
        entries.push((owned("total_threads"), owned("总线程数"), owned("Total threads")));
        entries.push((owned("daemon_threads"), owned("守护线程"), owned("Daemon threads")));
        entries.push((owned("deadlock_detected"), owned("🔴 检测到死锁"), owned("🔴 Deadlock detected")));
        entries.push((owned("heap_overview"), owned("堆内存概览"), owned("Heap memory overview")));
        self.entries = entries;
        assert(entry_views(self.entries@) =~= message_table());
    }

    /// Sets the current language.
    pub fn set_lang(&mut self, lang: Lang)
        ensures
            final(self).lang == lang,
            final(self).entries@ == old(self).entries@,
    {
        self.lang = lang;
    }

    /// The current language.
    pub fn get_lang(&self) -> (r: Lang)
        ensures
            r == self.lang,
    {
        self.lang
    }

    /// Whether the catalog has no messages.
    pub fn is_empty(&self) -> (r: bool)
        ensures
            r == (self.entries@.len() == 0),
    {
        self.entries.len() == 0
    }

    /// Whether the catalog has a message for `key`.
    pub fn contains_key(&self, key: &str) -> (r: bool)
        ensures
            r == (entry_pos(entry_views(self.entries@), key@) < self.entries@.len()),
    {
        self.position(key) < self.entries.len()
    }

    /// Index of the first entry with key `key`, or the number of entries.
    fn position(&self, key: &str) -> (r: usize)
        ensures
            r == entry_pos(entry_views(self.entries@), key@),
            r <= self.entries@.len(),
    {
        let ghost es = entry_views(self.entries@);
        let kv = chars_of(key);
        let mut i: usize = 0;
        proof {
            lemma_entry_pos_bounds(es, key@);
        }
        while i < self.entries.len()
            invariant
                es == entry_views(self.entries@),
                i <= self.entries@.len(),
                0 <= entry_pos(es, key@) <= es.len(),
                entry_pos(es, key@) < es.len() ==> es[entry_pos(es, key@)].0 == key@,
                forall|j: int| 0 <= j < entry_pos(es, key@) ==> es[j].0 != key@,
                forall|j: int| 0 <= j < i ==> es[j].0 != key@,
                kv@ == key@,
            decreases self.entries@.len() - i,
        {
            let ek = chars_of(self.entries[i].0.as_str());
            if seq_eq(&ek, &kv) {
                assert(es[i as int].0 == key@);
                return i;
            }
            i += 1;
        }
        i
    }

    /// The message for `key` in the current language, or `key` itself.
    pub fn msg(&self, key: &str) -> (r: String)
        ensures
            r@ == lookup(entry_views(self.entries@), self.lang, key@),
    {
        let p = self.position(key);
        if p < self.entries.len() {
            match self.lang {
                Lang::Zh => self.entries[p].1.clone(),
                Lang::En => self.entries[p].2.clone(),
            }
        } else {
            owned(key)
        }
    }
}

/// Setting the language leaves the messages as they were, and the language
/// read back is the one set.
pub proof fn lemma_set_then_get(before: Catalog, lang: Lang, after: Catalog)
    requires
        after.lang == lang,
        after.entries@ == before.entries@,
    ensures
        after.lang == lang,
        forall|k: Seq<char>|
            lookup(entry_views(after.entries@), lang, k) == lookup(
                entry_views(before.entries@),
                lang,
                k,
            ),
{
}

/// A key with no entry is its own message, in either language.
pub proof fn lemma_msg_absent(es: Seq<(Seq<char>, Seq<char>, Seq<char>)>, lang: Lang, k: Seq<char>)
    requires
        forall|j: int| 0 <= j < es.len() ==> es[j].0 != k,
    ensures
        lookup(es, lang, k) == k,
{
    lemma_entry_pos_bounds(es, k);
}

} // verus!
