//! async-profiler support for flame graphs: platform names, download
//! locations, the profiler's command line, its errors, and the reading of
//! collapsed stack samples.

use vstd::prelude::*;
use crate::error::Error;
use crate::num::{decimal, u64_to_decimal, parse_unsigned, parse_u64_seq};
use crate::text::{
    str_eq, owned, concat2, concat3, push_str, push_char, contains, str_contains, trim, lines,
    views, str_lines, chars_of, trim_bounds, rfind_char, seq_rfind_char, string_of,
};
use crate::util::{path_join, join_path};

verus! {

/// Bundled async-profiler version.
pub open spec fn profiler_version() -> Seq<char> {
    "3.0"@
}

/// Base URL of async-profiler releases.
pub open spec fn release_base() -> Seq<char> {
    "https://github.com/async-profiler/async-profiler/releases/download"@
}

/// Operating system.
#[derive(Debug, Clone, Copy, PartialEq, Eq, Structural)]
pub enum Os {
    Linux,
    Macos,
    Windows,
}

/// CPU architecture.
#[derive(Debug, Clone, PartialEq, Eq)]
pub enum Arch {
    X86_64,
    Aarch64,
    Unknown(String),
}

/// Operating system and architecture.
#[derive(Debug, Clone)]
pub struct Platform {
    pub os: Os,
    pub arch: Arch,
}

/// Release name of an OS.
pub open spec fn os_name(os: Os) -> Seq<char> {
    match os {
        Os::Linux => "linux"@,
        Os::Macos => "macos"@,
        Os::Windows => "windows"@,
    }
}

/// Release name of an architecture.
pub open spec fn arch_name(arch: Arch) -> Seq<char> {
    match arch {
        Arch::X86_64 => "x64"@,
        Arch::Aarch64 => "arm64"@,
        Arch::Unknown(a) => a@,
    }
}

/// Archive name of async-profiler `version` for a platform.
pub open spec fn archive_name(p: Platform, version: Seq<char>) -> Seq<char> {
    "async-profiler-"@ + version + "-"@ + os_name(p.os) + "-"@ + arch_name(p.arch)
}

/// Profiler binary inside an unpacked archive.
pub open spec fn binary_path_of(os: Os) -> Seq<char> {
    match os {
        Os::Linux => "bin/asprof"@,
        Os::Macos => "bin/dtrace"@,
        Os::Windows => "bin/asprof"@,
    }
}

/// OS of std's `consts::OS` value (an unknown one is taken as Linux).
pub open spec fn os_of(os: Seq<char>) -> Os {
    if os == "linux"@ {
        Os::Linux
    } else if os == "macos"@ {
        Os::Macos
    } else if os == "windows"@ {
        Os::Windows
    } else {
        Os::Linux
    }
}

impl Platform {
    /// The platform of std's `consts::OS` and `consts::ARCH` values: an
    /// unknown OS is taken as Linux, an unknown architecture kept by name.
    pub fn from_consts(os: &str, arch: &str) -> (r: Platform)
        ensures
            r.os == os_of(os@),
            arch@ == "x86_64"@ ==> r.arch == Arch::X86_64,
            arch@ == "aarch64"@ ==> r.arch == Arch::Aarch64,
            !(arch@ == "x86_64"@ || arch@ == "aarch64"@) ==> (r.arch matches Arch::Unknown(a)
                && a@ == arch@),
    {
        let o = if str_eq(os, "linux") {
            Os::Linux
        } else if str_eq(os, "macos") {
            Os::Macos
        } else if str_eq(os, "windows") {
            Os::Windows
        } else {
            Os::Linux
        };
        let a = if str_eq(arch, "x86_64") {
            Arch::X86_64
        } else if str_eq(arch, "aarch64") {
            Arch::Aarch64
        } else {
            Arch::Unknown(owned(arch))
        };
        proof {
            reveal_strlit("x86_64");
            reveal_strlit("aarch64");
            assert("x86_64"@.len() == 6);
            assert("aarch64"@.len() == 7);
            assert("x86_64"@ != "aarch64"@);
        }
        Platform { os: o, arch: a }
    }

    /// Name of the async-profiler archive for `version` (without `.zip`):
    /// `async-profiler-{version}-{os}-{arch}`.
    pub fn download_name(&self, version: &str) -> (r: String)
        ensures
            r@ == archive_name(*self, version@),
    {
        let os_str = match self.os {
            Os::Linux => "linux",
            Os::Macos => "macos",
            Os::Windows => "windows",
        };
        let mut s = concat3("async-profiler-", version, "-");
        push_str(&mut s, os_str);
        push_str(&mut s, "-");
        match &self.arch {
            Arch::X86_64 => push_str(&mut s, "x64"),
            Arch::Aarch64 => push_str(&mut s, "arm64"),
            Arch::Unknown(a) => push_str(&mut s, a.as_str()),
        }
        s
    }

    /// Download URL of the archive for `version`.
    pub fn download_url(&self, version: &str) -> (r: String)
        ensures
            r@ == release_base() + "/v"@ + version@ + "/"@ + archive_name(*self, version@)
                + ".zip"@,
    {
        let name = self.download_name(version);
        let mut s = owned("https://github.com/async-profiler/async-profiler/releases/download");
        push_str(&mut s, "/v");
        push_str(&mut s, version);
        push_str(&mut s, "/");
        push_str(&mut s, name.as_str());
        push_str(&mut s, ".zip");
        s
    }

    /// Path of the profiler binary inside the unpacked archive.
    pub fn binary_relative_path(&self) -> (r: &str)
        ensures
            r@ == binary_path_of(self.os),
    {
        match self.os {
            Os::Linux => "bin/asprof",
            Os::Macos => "bin/dtrace",
            Os::Windows => "bin/asprof",
        }
    }
}

/// Install directory of the profiler under jex's home directory:
/// `{jex_home}/profiler/{version}`.
pub fn profiler_home(jex_home: &str) -> (r: String)
    ensures
        r@ == path_join(path_join(jex_home@, "profiler"@), profiler_version()),
{
    let p = join_path(jex_home, "profiler");
    join_path(p.as_str(), "3.0")
}

/// Full path of the profiler binary for a platform.
pub fn profiler_binary(jex_home: &str, platform: &Platform) -> (r: String)
    ensures
        r@ == path_join(
            path_join(path_join(jex_home@, "profiler"@), profiler_version()),
            binary_path_of(platform.os),
        ),
{
    let home = profiler_home(jex_home);
    join_path(home.as_str(), platform.binary_relative_path())
}

/// Outcome of one sampling run.
#[derive(Debug, Clone)]
pub struct FlameResult {
    /// Collapsed-stack file written by the profiler.
    pub collapsed_path: String,
    /// Flame graph SVG made from it.
    pub svg_path: String,
    /// Sampling time in seconds.
    pub duration_secs: u32,
}

/// Output directory of a sampling run: `/tmp/jex-flame-{pid}-{timestamp}`.
pub fn flame_output_dir(pid: u32, timestamp: u64) -> (r: String)
    ensures
        r@ == "/tmp/jex-flame-"@ + decimal(pid as nat) + "-"@ + decimal(timestamp as nat),
{
    let p = u64_to_decimal(pid as u64);
    let t = u64_to_decimal(timestamp);
    let mut s = concat3("/tmp/jex-flame-", p.as_str(), "-");
    push_str(&mut s, t.as_str());
    s
}

/// Profiler arguments on an OS (none on Windows).
pub open spec fn profiler_args_of(os: Os, pid: nat, duration: nat, collapsed: Seq<char>) -> Option<
    Seq<Seq<char>>,
> {
    match os {
        Os::Linux => Some(
            seq![
                "-d"@,
                decimal(duration),
                "-f"@,
                collapsed,
                "-o"@,
                "collapsed"@,
                decimal(pid),
            ],
        ),
        Os::Macos => Some(seq!["-p"@, decimal(pid), "-d"@, decimal(duration), "-f"@, collapsed]),
        Os::Windows => None,
    }
}

/// Message of the error on Windows.
pub open spec fn windows_unsupported() -> Seq<char> {
    "Windows 暂不支持 async-profiler 火焰图"@
}

/// Command-line arguments of the profiler sampling `pid` for
/// `duration_secs` into `collapsed`.
pub fn profiler_args(os: Os, pid: u32, duration_secs: u32, collapsed: &str) -> (r: Result<
    Vec<String>,
    Error,
>)
    ensures
        match r {
            Ok(a) => profiler_args_of(os, pid as nat, duration_secs as nat, collapsed@) == Some(
                views(a@),
            ),
            Err(e) => os == Os::Windows && e.0@ == windows_unsupported(),
        },
{
    let d = u64_to_decimal(duration_secs as u64);
    let p = u64_to_decimal(pid as u64);
    let mut a: Vec<String> = Vec::new();
    match os {
        Os::Linux => {
            a.push(owned("-d"));
            a.push(d);
            a.push(owned("-f"));
            a.push(owned(collapsed));
            a.push(owned("-o"));
            a.push(owned("collapsed"));
            a.push(p);
        },
        Os::Macos => {
            a.push(owned("-p"));
            a.push(p);
            a.push(owned("-d"));
            a.push(d);
            a.push(owned("-f"));
            a.push(owned(collapsed));
        },
        Os::Windows => {
            return Err(Error::new(owned("Windows 暂不支持 async-profiler 火焰图")));
        },
    }
    proof {
        assert(Some(views(a@)) =~= profiler_args_of(os, pid as nat, duration_secs as nat, collapsed@));
        assert(views(a@) =~= profiler_args_of(os, pid as nat, duration_secs as nat, collapsed@)->0);
    }
    Ok(a)
}

/// Message for profiler output that speaks of missing permission.
pub open spec fn permission_message() -> Seq<char> {
    "权限不足: Linux 需要 root 或 kernel.perf_event_paranoid <= 2\n\u{2003}提示: sudo sysctl kernel.perf_event_paranoid=1"@
}

/// The error reported for the profiler's error output.
pub open spec fn profiler_error_text(stderr: Seq<char>, pid: nat) -> Seq<char> {
    if contains(stderr, "permission denied"@) || contains(stderr, "Permission denied"@) {
        permission_message()
    } else if contains(stderr, "No such process"@) || contains(stderr, "does not exist"@) {
        "进程 "@ + decimal(pid) + " 不存在"@
    } else {
        "profiler 执行失败: "@ + stderr
    }
}

/// The error to report for a failed profiler run, by what its error
/// output says.
pub fn classify_profiler_error(stderr: &str, pid: u32) -> (r: Error)
    ensures
        r.0@ == profiler_error_text(stderr@, pid as nat),
{
    if str_contains(stderr, "permission denied") || str_contains(stderr, "Permission denied") {
        Error::new(
            owned(
                "权限不足: Linux 需要 root 或 kernel.perf_event_paranoid <= 2\n\u{2003}提示: sudo sysctl kernel.perf_event_paranoid=1",
            ),
        )
    } else if str_contains(stderr, "No such process") || str_contains(stderr, "does not exist") {
        let p = u64_to_decimal(pid as u64);
        Error::new(concat3("进程 ", p.as_str(), " 不存在"))
    } else {
        Error::new(concat2("profiler 执行失败: ", stderr))
    }
}

/// One sample line of a collapsed-stack file: trimmed, split at its last
/// space into the stack and a count that must be an unsigned 64-bit number.
pub open spec fn collapsed_entry(line: Seq<char>) -> Option<(Seq<char>, nat)> {
    let t = trim(line);
    match rfind_char(t, ' ') {
        Some(i) => match parse_unsigned(t.subrange(i + 1, t.len() as int), u64::MAX as nat) {
            Some(n) => Some((t.subrange(0, i), n)),
            None => None,
        },
        None => None,
    }
}

/// The samples of the lines that hold one, in order.
pub open spec fn collapsed_entries(ls: Seq<Seq<char>>) -> Seq<(Seq<char>, nat)>
    decreases ls.len(),
{
    if ls.len() == 0 {
        Seq::empty()
    } else {
        match collapsed_entry(ls.last()) {
            Some(e) => collapsed_entries(ls.drop_last()).push(e),
            None => collapsed_entries(ls.drop_last()),
        }
    }
}

/// Reads one collapsed-stack line.
fn parse_collapsed_line(line: &str) -> (r: Option<(String, u64)>)
    ensures
        match r {
            Some((s, n)) => collapsed_entry(line@) == Some((s@, n as nat)),
            None => collapsed_entry(line@) is None,
        },
{
    let v = chars_of(line);
    let (a, b) = trim_bounds(&v, 0, v.len());
    assert(v@.subrange(0, v@.len() as int) =~= v@);
    let t = string_of(&v, a, b);
    let tv = chars_of(t.as_str());
    let n = tv.len();
    match seq_rfind_char(&tv, ' ') {
        Some(i) => match parse_u64_seq(&tv, i + 1, n) {
            Some(c) => Some((string_of(&tv, 0, i), c)),
            None => None,
        },
        None => None,
    }
}

/// The samples (stack, count) of a collapsed-stack file, in order; lines
/// that hold none are skipped.
pub fn parse_collapsed(content: &str) -> (r: Vec<(String, u64)>)
    ensures
        r@.map_values(|e: (String, u64)| (e.0@, e.1 as nat)) == collapsed_entries(lines(content@)),
{
    let ls = str_lines(content);
    let ghost s = views(ls@);
    let mut out: Vec<(String, u64)> = Vec::new();
    let mut i: usize = 0;
    assert(s.take(0) =~= Seq::<Seq<char>>::empty());
    while i < ls.len()
        invariant
            s == views(ls@),
            s == lines(content@),
            s.len() == ls@.len(),
            i <= ls@.len(),
            out@.map_values(|e: (String, u64)| (e.0@, e.1 as nat)) == collapsed_entries(
                s.take(i as int),
            ),
        decreases ls@.len() - i,
    {
        assert(s.take(i + 1).drop_last() =~= s.take(i as int));
        assert(s.take(i + 1).last() == ls@[i as int]@);
        let ghost o0 = out@;
        match parse_collapsed_line(ls[i].as_str()) {
            Some(e) => {
                out.push(e);
                assert(out@.map_values(|e: (String, u64)| (e.0@, e.1 as nat)) =~= o0.map_values(
                    |e: (String, u64)| (e.0@, e.1 as nat),
                ).push(collapsed_entry(s[i as int])->0));
            },
            None => {},
        }
        i += 1;
    }
    assert(s.take(s.len() as int) =~= s);
    out
}

/// XML text for one character.
pub open spec fn xml_char(c: char) -> Seq<char> {
    if c == '&' {
        "&amp;"@
    } else if c == '<' {
        "&lt;"@
    } else if c == '>' {
        "&gt;"@
    } else if c == '"' {
        "&quot;"@
    } else {
        seq![c]
    }
}

/// `s` with `&`, `<`, `>` and `"` written as XML entities.
pub open spec fn xml_escaped(s: Seq<char>) -> Seq<char>
    decreases s.len(),
{
    if s.len() == 0 {
        Seq::empty()
    } else {
        xml_escaped(s.drop_last()) + xml_char(s.last())
    }
}

/// Escaped text holds no `<`, `>` or `"`.
pub proof fn lemma_xml_escaped_clean(s: Seq<char>)
    ensures
        !xml_escaped(s).contains('<'),
        !xml_escaped(s).contains('>'),
        !xml_escaped(s).contains('"'),
    decreases s.len(),
{
    reveal_strlit("&amp;");
    reveal_strlit("&lt;");
    reveal_strlit("&gt;");
    reveal_strlit("&quot;");
    if s.len() > 0 {
        lemma_xml_escaped_clean(s.drop_last());
        let a = xml_escaped(s.drop_last());
        let b = xml_char(s.last());
        assert forall|c: char| (a + b).contains(c) implies a.contains(c) || b.contains(c) by {
            let k = choose|k: int| 0 <= k < (a + b).len() && (a + b)[k] == c;
            if k < a.len() {
                assert(a[k] == c);
            } else {
                assert(b[k - a.len()] == c);
            }
        }
    }
}

/// Escapes `&`, `<`, `>` and `"` for XML text.
pub fn xml_escape(s: &str) -> (r: String)
    ensures
        r@ == xml_escaped(s@),
        !r@.contains('<') && !r@.contains('>') && !r@.contains('"'),
{
    let v = chars_of(s);
    let mut out = String::new();
    let mut i: usize = 0;
    assert(v@.take(0) =~= Seq::<char>::empty());
    while i < v.len()
        invariant
            i <= v@.len(),
            v@ == s@,
            out@ == xml_escaped(v@.take(i as int)),
        decreases v@.len() - i,
    {
        assert(v@.take(i + 1).drop_last() =~= v@.take(i as int));
        assert(v@.take(i + 1).last() == v@[i as int]);
        let c = v[i];
        if c == '&' {
            push_str(&mut out, "&amp;");
        } else if c == '<' {
            push_str(&mut out, "&lt;");
        } else if c == '>' {
            push_str(&mut out, "&gt;");
        } else if c == '"' {
            push_str(&mut out, "&quot;");
        } else {
            let ghost o0 = out@;
            push_char(&mut out, c);
            assert(out@ =~= o0 + xml_char(c));
        }
        i += 1;
    }
    assert(v@.take(v@.len() as int) =~= v@);
    proof {
        lemma_xml_escaped_clean(s@);
    }
    out
}

} // verus!
