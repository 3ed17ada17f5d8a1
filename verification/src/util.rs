//! Maven coordinates.

use vstd::prelude::*;
use crate::error::{Error, Result};
use crate::text::{
    split, str_split, views, push_str, lemma_split_acc_len, lemma_split_pair, starts_with,
    ends_with, str_starts_with, str_ends_with, owned, chars_of, str_eq, concat2,
};

verus! {

/// Message of the error for a coordinate without `:`.
pub open spec fn invalid_coord_message(coord: Seq<char>) -> Seq<char> {
    "无效的坐标格式: "@ + coord + "（应为 group:artifact）"@
}

/// Parses a Maven coordinate `group:artifact[:...]` into its first two
/// `:`-separated parts.
pub fn parse_coord(coord: &str) -> (r: Result<(String, String)>)
    ensures
        match r {
            Ok((g, a)) => split(coord@, ':').len() >= 2 && g@ == split(coord@, ':')[0] && a@
                == split(coord@, ':')[1],
            Err(e) => split(coord@, ':').len() < 2 && e.0@ == invalid_coord_message(coord@),
        },
{
    let parts = str_split(coord, ':');
    proof {
        assert(views(parts@).len() == parts@.len());
    }
    if parts.len() < 2 {
        let mut msg = "无效的坐标格式: ".to_owned();
        push_str(&mut msg, coord);
        push_str(&mut msg, "（应为 group:artifact）");
        return Err(Error::new(msg));
    }
    proof {
        assert(views(parts@)[0] == parts@[0]@);
        assert(views(parts@)[1] == parts@[1]@);
    }
    Ok((parts[0].clone(), parts[1].clone()))
}

/// A coordinate parses exactly when it holds a `:`.
pub proof fn lemma_parse_coord_accepts(coord: Seq<char>)
    ensures
        split(coord, ':').len() >= 2 <==> coord.contains(':'),
{
    lemma_split_acc_len(coord, ':', Seq::empty());
}

/// Parsing `group:artifact` gives back the group and the artifact, when
/// neither holds a `:`.
pub proof fn lemma_parse_coord_roundtrip(group: Seq<char>, artifact: Seq<char>)
    requires
        !group.contains(':'),
        !artifact.contains(':'),
    ensures
        split(group.push(':') + artifact, ':').len() >= 2,
        split(group.push(':') + artifact, ':')[0] == group,
        split(group.push(':') + artifact, ':')[1] == artifact,
{
    lemma_split_pair(group, artifact, ':');
}

/// `PathBuf::join` on Unix paths: an absolute `b` replaces `a`; otherwise
/// `b` follows `a`, with one `/` between them unless `a` is empty or
/// already ends with one.
pub open spec fn path_join(a: Seq<char>, b: Seq<char>) -> Seq<char> {
    if starts_with(b, "/"@) {
        b
    } else if a.len() == 0 || ends_with(a, "/"@) {
        a + b
    } else {
        a + "/"@ + b
    }
}

/// Joins two Unix paths as `Path::join` does.
pub fn join_path(a: &str, b: &str) -> (r: String)
    ensures
        r@ == path_join(a@, b@),
{
    if str_starts_with(b, "/") {
        owned(b)
    } else if chars_of(a).len() == 0 || str_ends_with(a, "/") {
        let mut s = owned(a);
        push_str(&mut s, b);
        s
    } else {
        let mut s = owned(a);
        push_str(&mut s, "/");
        push_str(&mut s, b);
        s
    }
}

/// Adoptium's name of an operating system (as std's `consts::OS` names it).
pub open spec fn adoptium_os_of(os: Seq<char>) -> Option<Seq<char>> {
    if os == "linux"@ {
        Some("linux"@)
    } else if os == "macos"@ {
        Some("mac"@)
    } else if os == "windows"@ {
        Some("windows"@)
    } else {
        None
    }
}

/// Adoptium's name of an architecture (as std's `consts::ARCH` names it).
pub open spec fn adoptium_arch_of(arch: Seq<char>) -> Option<Seq<char>> {
    if arch == "x86_64"@ {
        Some("x64"@)
    } else if arch == "aarch64"@ {
        Some("aarch64"@)
    } else {
        None
    }
}

/// The operating system's name in Adoptium's API; an unsupported one is
/// an error.
pub fn adoptium_os_str(os: &str) -> (r: Result<&'static str>)
    ensures
        match r {
            Ok(n) => adoptium_os_of(os@) == Some(n@),
            Err(e) => adoptium_os_of(os@) is None && e.0@ == "不支持的操作系统: "@ + os@,
        },
{
    if str_eq(os, "linux") {
        Ok("linux")
    } else if str_eq(os, "macos") {
        Ok("mac")
    } else if str_eq(os, "windows") {
        Ok("windows")
    } else {
        Err(Error::new(concat2("不支持的操作系统: ", os)))
    }
}

/// The architecture's name in Adoptium's API; an unsupported one is an
/// error.
pub fn adoptium_arch_str(arch: &str) -> (r: Result<&'static str>)
    ensures
        match r {
            Ok(n) => adoptium_arch_of(arch@) == Some(n@),
            Err(e) => adoptium_arch_of(arch@) is None && e.0@ == "不支持的架构: "@ + arch@,
        },
{
    if str_eq(arch, "x86_64") {
        Ok("x64")
    } else if str_eq(arch, "aarch64") {
        Ok("aarch64")
    } else {
        Err(Error::new(concat2("不支持的架构: ", arch)))
    }
}

} // verus!
