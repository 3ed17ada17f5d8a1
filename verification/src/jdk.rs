//! JDK versions managed by jex: which version is in effect, where it is
//! installed, how it is downloaded, and what `jex jdk list`, `use` and
//! `doctor` report.

use vstd::prelude::*;
use crate::error::{Error, Result};
use crate::text::{trim, str_trim, owned, concat2, concat3, push_str, str_lt, lex_less, str_eq};
use crate::util::{path_join, join_path};

verus! {

/// The version in effect: the project's `.jex-version` when it exists,
/// else the global `jdk-current`, each read as its trimmed text.
pub open spec fn effective_version(project: Option<Seq<char>>, global: Option<Seq<char>>) -> Option<Seq<char>> {
    match project {
        Some(p) => Some(trim(p)),
        None => match global {
            Some(g) => Some(trim(g)),
            None => None,
        },
    }
}

/// The JDK version in effect, from the contents of the project's version
/// file and of the global one (`None` where the file does not exist).
pub fn current_version(project: Option<&str>, global: Option<&str>) -> (r: Option<String>)
    ensures
        match r {
            Some(v) => effective_version(
                match project {
                    Some(p) => Some(p@),
                    None => None,
                },
                match global {
                    Some(g) => Some(g@),
                    None => None,
                },
            ) == Some(v@),
            None => project is None && global is None,
        },
{
    match project {
        Some(p) => Some(str_trim(p)),
        None => match global {
            Some(g) => Some(str_trim(g)),
            None => None,
        },
    }
}

/// Install directory of a version under the JDK directory.
pub fn java_home_path(jdks_dir: &str, version: &str) -> (r: String)
    ensures
        r@ == path_join(jdks_dir@, version@),
{
    join_path(jdks_dir, version)
}

/// Message for a version in effect that is not installed.
pub open spec fn not_installed_message(v: Seq<char>) -> Seq<char> {
    "版本 "@ + v + " 已声明但未安装，请运行 jex jdk install "@ + v
}

/// Message when no version is in effect.
pub open spec fn no_version_message() -> Seq<char> {
    "未设置 JDK 版本，请运行 jex jdk use <version> 或 jex jdk install <version>"@
}

/// `JAVA_HOME` of the version in effect (`home_exists` tells whether its
/// install directory exists): its install directory, or an error when no
/// version is set or it is not installed.
pub fn which_java_home(jdks_dir: &str, current: Option<&str>, home_exists: bool) -> (r: Result<String>)
    ensures
        match current {
            Some(v) => if home_exists {
                r matches Ok(h) && h@ == path_join(jdks_dir@, v@)
            } else {
                r matches Err(e) && e.0@ == not_installed_message(v@)
            },
            None => r matches Err(e) && e.0@ == no_version_message(),
        },
{
    match current {
        Some(v) => {
            if home_exists {
                Ok(java_home_path(jdks_dir, v))
            } else {
                let mut m = concat3("版本 ", v, " 已声明但未安装，请运行 jex jdk install ");
                push_str(&mut m, v);
                Err(Error::new(m))
            }
        },
        None => Err(
            Error::new(owned("未设置 JDK 版本，请运行 jex jdk use <version> 或 jex jdk install <version>")),
        ),
    }
}

/// Adoptium URL of the latest GA build of a JDK version.
pub open spec fn adoptium_url(version: Seq<char>, os: Seq<char>, arch: Seq<char>) -> Seq<char> {
    "https://api.adoptium.net/v3/binary/latest/"@ + version + "/ga/"@ + os + "/"@ + arch
        + "/jdk/hotspot/normal/eclipse"@
}

/// Download URL of a JDK version for Adoptium's OS and architecture names.
pub fn adoptium_download_url(version: &str, os: &str, arch: &str) -> (r: String)
    ensures
        r@ == adoptium_url(version@, os@, arch@),
{
    let mut s = concat3("https://api.adoptium.net/v3/binary/latest/", version, "/ga/");
    push_str(&mut s, os);
    push_str(&mut s, "/");
    push_str(&mut s, arch);
    push_str(&mut s, "/jdk/hotspot/normal/eclipse");
    s
}

/// Name of the downloaded archive: a zip on Windows, else a gzipped tar.
pub fn archive_file_name(os: &str) -> (r: &'static str)
    ensures
        r@ == if os@ == "windows"@ {
            "jdk.zip"@
        } else {
            "jdk.tar.gz"@
        },
{
    if str_eq(os, "windows") {
        "jdk.zip"
    } else {
        "jdk.tar.gz"
    }
}

/// Text written to a version file.
pub fn version_file_text(version: &str) -> (r: String)
    ensures
        r@ == version@ + "\n"@,
{
    concat2(version, "\n")
}

/// Number of leading versions that do not sort after `x`.
pub open spec fn not_after_count(sorted: Seq<String>, x: Seq<char>) -> int
    decreases sorted.len(),
{
    if sorted.len() == 0 {
        0
    } else if !lex_less(x, sorted[0]@) {
        1 + not_after_count(sorted.drop_first(), x)
    } else {
        0
    }
}

/// The versions in string order (an insertion sort; equal names keep
/// their order).
pub open spec fn sorted_versions(s: Seq<String>) -> Seq<String>
    decreases s.len(),
{
    if s.len() == 0 {
        Seq::empty()
    } else {
        let t = sorted_versions(s.drop_last());
        t.insert(not_after_count(t, s.last()@), s.last())
    }
}

proof fn lemma_not_after_count(sorted: Seq<String>, x: Seq<char>)
    ensures
        0 <= not_after_count(sorted, x) <= sorted.len(),
        forall|i: int| 0 <= i < not_after_count(sorted, x) ==> !lex_less(x, #[trigger] sorted[i]@),
        not_after_count(sorted, x) < sorted.len() ==> lex_less(x, sorted[not_after_count(sorted, x)]@),
    decreases sorted.len(),
{
    if sorted.len() > 0 && !lex_less(x, sorted[0]@) {
        lemma_not_after_count(sorted.drop_first(), x);
        assert forall|i: int| 0 <= i < not_after_count(sorted, x) implies !lex_less(x, #[trigger] sorted[i]@) by {
            if i > 0 {
                assert(sorted[i] == sorted.drop_first()[i - 1]);
            }
        }
        if not_after_count(sorted, x) < sorted.len() {
            assert(sorted[not_after_count(sorted, x)] == sorted.drop_first()[not_after_count(
                sorted.drop_first(),
                x,
            )]);
        }
    }
}

proof fn lemma_lex_less_irreflexive(a: Seq<char>)
    ensures
        !lex_less(a, a),
    decreases a.len(),
{
    if a.len() > 0 {
        lemma_lex_less_irreflexive(a.drop_first());
    }
}

proof fn lemma_lex_less_transitive(a: Seq<char>, b: Seq<char>, c: Seq<char>)
    requires
        lex_less(a, b),
        lex_less(b, c),
    ensures
        lex_less(a, c),
    decreases a.len(),
{
    if a.len() > 0 && a[0] == b[0] && b[0] == c[0] {
        lemma_lex_less_transitive(a.drop_first(), b.drop_first(), c.drop_first());
    }
}

/// No version comes after one that sorts after it.
pub open spec fn versions_sorted(s: Seq<String>) -> bool {
    forall|i: int, j: int| 0 <= i < j < s.len() ==> !lex_less(#[trigger] s[j]@, #[trigger] s[i]@)
}

/// The versions `jex jdk list` shows are in string order, and they are the
/// installed versions, each as often as it was given.
pub proof fn lemma_sorted_versions(s: Seq<String>)
    ensures
        versions_sorted(sorted_versions(s)),
        sorted_versions(s).to_multiset() == s.to_multiset(),
    decreases s.len(),
{
    if s.len() > 0 {
        let t = sorted_versions(s.drop_last());
        lemma_sorted_versions(s.drop_last());
        let x = s.last();
        let p = not_after_count(t, x@);
        lemma_not_after_count(t, x@);
        let u = t.insert(p, x);
        assert(u == sorted_versions(s));
        assert forall|i: int, j: int| 0 <= i < j < u.len() implies !lex_less(#[trigger] u[j]@, #[trigger] u[i]@) by {
            if j < p {
                assert(u[i] == t[i] && u[j] == t[j]);
            } else if j == p {
                assert(u[j] == x && u[i] == t[i]);
            } else if i < p {
                assert(u[j] == t[j - 1] && u[i] == t[i]);
            } else if i == p {
                assert(u[i] == x && u[j] == t[j - 1]);
                assert(lex_less(x@, t[p]@));
                if lex_less(t[j - 1]@, x@) {
                    lemma_lex_less_transitive(t[j - 1]@, x@, t[p]@);
                    if j - 1 == p {
                        lemma_lex_less_irreflexive(t[p]@);
                    } else {
                        assert(!lex_less(t[j - 1]@, t[p]@));
                    }
                }
            } else {
                assert(u[i] == t[i - 1] && u[j] == t[j - 1]);
            }
        }
        vstd::seq_lib::to_multiset_insert(t, p, x);
        vstd::seq_lib::to_multiset_build(s.drop_last(), x);
        assert(s.drop_last().push(x) =~= s);
        assert(u.to_multiset() == t.to_multiset().insert(x));
        assert(s.to_multiset() == s.drop_last().to_multiset().insert(x));
    } else {
        assert(sorted_versions(s) =~= s);
    }
}

/// Sorts installed versions by name.
pub fn sort_versions(versions: Vec<String>) -> (r: Vec<String>)
    ensures
        r@ == sorted_versions(versions@),
{
    let ghost s = versions@;
    let mut out: Vec<String> = Vec::new();
    for x in it: versions.into_iter()
        invariant
            it.seq() == s,
            out@ == sorted_versions(s.take(it.index() as int)),
    {
        let ghost k = it.index() as int;
        assert(s.take(k + 1).drop_last() =~= s.take(k));
        assert(s.take(k + 1).last() == x);
        proof {
            lemma_not_after_count(out@, x@);
        }
        let ghost q = not_after_count(out@, x@);
        let mut p: usize = 0;
        while p < out.len() && !str_lt(x.as_str(), out[p].as_str())
            invariant
                p <= q,
                q == not_after_count(out@, x@),
                0 <= q <= out@.len(),
                forall|i: int| 0 <= i < q ==> !lex_less(x@, #[trigger] out@[i]@),
                q < out@.len() ==> lex_less(x@, out@[q]@),
            decreases out@.len() - p,
        {
            p += 1;
        }
        out.insert(p, x);
    }
    assert(s.take(s.len() as int) =~= s);
    out
}

/// Line listing one installed version, marked when it is the current one.
pub open spec fn installed_line(v: Seq<char>, current: Option<Seq<char>>) -> Seq<char> {
    "  "@ + (if current == Some(v) {
        " →"@
    } else {
        "   "@
    }) + " "@ + v + " ✔"@
}

/// Lines of `jex jdk list` for the installed versions (in their order)
/// and the version in effect.
pub open spec fn list_text(installed: Seq<String>, current: Option<Seq<char>>) -> Seq<Seq<char>> {
    if installed.len() == 0 {
        seq!["未安装任何 JDK 版本"@, "  使用 jex jdk install <version> 安装"@]
    } else {
        seq!["已安装的 JDK 版本:"@] + installed.map_values(|v: String| installed_line(v@, current))
            + if current is None {
            seq!["\n未设置默认版本，请运行 jex jdk use <version>"@]
        } else {
            Seq::empty()
        }
    }
}

/// The lines `jex jdk list` prints.
pub fn list_lines(installed: &Vec<String>, current: Option<&str>) -> (r: Vec<String>)
    ensures
        crate::text::views(r@) == list_text(
            installed@,
            match current {
                Some(c) => Some(c@),
                None => None,
            },
        ),
{
    let ghost cur = match current {
        Some(c) => Some(c@),
        None => None,
    };
    let mut out: Vec<String> = Vec::new();
    if installed.len() == 0 {
        out.push(owned("未安装任何 JDK 版本"));
        out.push(owned("  使用 jex jdk install <version> 安装"));
        assert(crate::text::views(out@) =~= list_text(installed@, cur));
        return out;
    }
    out.push(owned("已安装的 JDK 版本:"));
    let mut i: usize = 0;
    while i < installed.len()
        invariant
            i <= installed@.len(),
            cur == match current {
                Some(c) => Some(c@),
                None => None,
            },
            crate::text::views(out@) == seq!["已安装的 JDK 版本:"@] + installed@.take(i as int).map_values(
                |v: String| installed_line(v@, cur),
            ),
        decreases installed@.len() - i,
    {
        let v = installed[i].as_str();
        let marker = match current {
            Some(c) => if str_eq(c, v) {
                " →"
            } else {
                "   "
            },
            None => "   ",
        };
        let mut line = concat3("  ", marker, " ");
        push_str(&mut line, v);
        push_str(&mut line, " ✔");
        let ghost o0 = crate::text::views(out@);
        out.push(line);
        assert(crate::text::views(out@) =~= o0.push(installed_line(v@, cur)));
        assert(installed@.take(i + 1).map_values(|v: String| installed_line(v@, cur)) =~= installed@.take(
            i as int,
        ).map_values(|v: String| installed_line(v@, cur)).push(installed_line(installed@[i as int]@, cur)));
        i += 1;
    }
    assert(installed@.take(i as int) =~= installed@);
    if current.is_none() {
        out.push(owned("\n未设置默认版本，请运行 jex jdk use <version>"));
    }
    assert(crate::text::views(out@) =~= list_text(installed@, cur));
    out
}

/// Where `jex jdk use` records a version.
#[derive(Debug, Clone, Copy, PartialEq, Eq)]
pub enum VersionScope {
    /// The project's `.jex-version`.
    Project,
    /// The global `jdk-current`.
    Global,
}

/// Message when switching to a version that is not installed.
pub open spec fn use_not_installed(v: Seq<char>) -> Seq<char> {
    "JDK "@ + v + " 未安装，请先运行 jex jdk install "@ + v
}

/// What `jex jdk use` does for a version (installed or not), in a project
/// directory or elsewhere: where it records the version and what it says.
pub fn use_version_plan(version: &str, installed: bool, in_project: bool) -> (r: Result<(VersionScope, String)>)
    ensures
        match r {
            Err(e) => !installed && e.0@ == use_not_installed(version@),
            Ok((s, m)) => installed && if in_project {
                s == VersionScope::Project && m@ == "项目 JDK 版本已切换为 "@ + version@
                    + " (.jex-version)"@
            } else {
                s == VersionScope::Global && m@ == "全局 JDK 版本已切换为 "@ + version@
                    + " (~/.jex/jdk-current)"@
            },
        },
{
    if !installed {
        let mut m = concat3("JDK ", version, " 未安装，请先运行 jex jdk install ");
        push_str(&mut m, version);
        return Err(Error::new(m));
    }
    if in_project {
        Ok((VersionScope::Project, concat3("项目 JDK 版本已切换为 ", version, " (.jex-version)")))
    } else {
        Ok((VersionScope::Global, concat3("全局 JDK 版本已切换为 ", version, " (~/.jex/jdk-current)")))
    }
}

/// Lines of `jex jdk doctor`.
pub open spec fn doctor_text(current: Option<Seq<char>>, current_installed: bool, none_installed: bool) -> Seq<Seq<char>> {
    seq!["JDK 一致性检查:"@] + match current {
        Some(v) => if current_installed {
            seq!["  ✅ 版本 "@ + v + " 已声明且已安装"@]
        } else {
            seq!["  ❌ 版本 "@ + v + " 已声明但未安装"@, "     请运行: jex jdk install "@ + v]
        },
        None => seq!["  ⚠️  未设置默认 JDK 版本"@, "     请运行: jex jdk use <version>"@],
    } + if none_installed {
        seq!["  ⚠️  未安装任何 JDK 版本"@]
    } else {
        Seq::empty()
    }
}

/// The lines `jex jdk doctor` prints, given the version in effect, whether
/// it is installed, and whether no version at all is installed.
pub fn doctor_lines(current: Option<&str>, current_installed: bool, none_installed: bool) -> (r: Vec<String>)
    ensures
        crate::text::views(r@) == doctor_text(
            match current {
                Some(c) => Some(c@),
                None => None,
            },
            current_installed,
            none_installed,
        ),
{
    let mut out: Vec<String> = Vec::new();
    out.push(owned("JDK 一致性检查:"));
    match current {
        Some(v) => {
            if current_installed {
                out.push(concat3("  ✅ 版本 ", v, " 已声明且已安装"));
            } else {
                out.push(concat3("  ❌ 版本 ", v, " 已声明但未安装"));
                out.push(concat2("     请运行: jex jdk install ", v));
            }
        },
        None => {
            out.push(owned("  ⚠️  未设置默认 JDK 版本"));
            out.push(owned("     请运行: jex jdk use <version>"));
        },
    }
    if none_installed {
        out.push(owned("  ⚠️  未安装任何 JDK 版本"));
    }
    assert(crate::text::views(out@) =~= doctor_text(
        match current {
            Some(c) => Some(c@),
            None => None,
        },
        current_installed,
        none_installed,
    ));
    out
}

} // verus!
