//! Self-update: version comparison, the platform's release asset and the
//! update offered by a release.

use vstd::prelude::*;
use crate::error::{Error, Result};
use crate::num::parse_unsigned;
use crate::text::{
    split, views, str_split, str_eq, owned, concat2, concat3, contains, ends_with, str_contains,
    str_ends_with, chars_of, string_of,
};

verus! {

/// What an update offers: the latest version, where to download it, and
/// its release notes.
#[derive(Debug, Clone)]
pub struct UpdateInfo {
    pub latest_version: String,
    pub download_url: String,
    pub release_notes: String,
}

/// One downloadable file of a release.
#[derive(Debug, Clone)]
pub struct GitHubAsset {
    pub name: String,
    pub browser_download_url: String,
}

/// This program's version.
pub open spec fn version_text() -> Seq<char> {
    "0.27.0"@
}

/// The version of this program.
pub fn current_version() -> (r: &'static str)
    ensures
        r@ == version_text(),
{
    "0.27.0"
}

/// The numbers of the `.`-separated parts of a version that are unsigned
/// 32-bit numbers, in order (other parts are skipped).
pub open spec fn numeric_parts(parts: Seq<Seq<char>>) -> Seq<nat>
    decreases parts.len(),
{
    if parts.len() == 0 {
        Seq::empty()
    } else {
        match parse_unsigned(parts.last(), u32::MAX as nat) {
            Some(n) => numeric_parts(parts.drop_last()).push(n),
            None => numeric_parts(parts.drop_last()),
        }
    }
}

/// The numeric parts of a version string.
pub open spec fn version_numbers(v: Seq<char>) -> Seq<nat> {
    numeric_parts(split(v, '.'))
}

/// `latest` is newer than `current`: at the first place where they differ
/// its number is greater, or it has more numbers and agrees on all of
/// `current`'s.
pub open spec fn newer(current: Seq<nat>, latest: Seq<nat>) -> bool
    decreases current.len(),
{
    if current.len() == 0 || latest.len() == 0 {
        latest.len() > current.len()
    } else if latest[0] > current[0] {
        true
    } else if latest[0] < current[0] {
        false
    } else {
        newer(current.drop_first(), latest.drop_first())
    }
}

/// The numbers of a version string.
fn version_parts(v: &str) -> (r: Vec<u32>)
    ensures
        r@.map_values(|x: u32| x as nat) == version_numbers(v@),
{
    let parts = str_split(v, '.');
    let ghost ps = views(parts@);
    let mut out: Vec<u32> = Vec::new();
    let mut i: usize = 0;
    assert(ps.take(0) =~= Seq::<Seq<char>>::empty());
    while i < parts.len()
        invariant
            ps == views(parts@),
            ps == split(v@, '.'),
            i <= parts@.len(),
            ps.len() == parts@.len(),
            out@.map_values(|x: u32| x as nat) == numeric_parts(ps.take(i as int)),
        decreases parts@.len() - i,
    {
        assert(ps.take(i + 1).drop_last() =~= ps.take(i as int));
        assert(ps.take(i + 1).last() == parts@[i as int]@);
        let ghost o0 = out@;
        match crate::num::parse_u32(parts[i].as_str()) {
            Some(n) => {
                out.push(n);
                assert(out@.map_values(|x: u32| x as nat) =~= o0.map_values(|x: u32| x as nat).push(
                    n as nat,
                ));
            },
            None => {},
        }
        i += 1;
    }
    assert(ps.take(parts@.len() as int) =~= ps);
    out
}

/// Whether `latest` is a newer version than `current`, comparing their
/// numeric parts in order.
pub fn needs_update(current: &str, latest: &str) -> (r: bool)
    ensures
        r == newer(version_numbers(current@), version_numbers(latest@)),
{
    let c = version_parts(current);
    let l = version_parts(latest);
    let ghost cs = c@.map_values(|x: u32| x as nat);
    let ghost ls = l@.map_values(|x: u32| x as nat);
    let mut i: usize = 0;
    assert(cs.skip(0) =~= cs);
    assert(ls.skip(0) =~= ls);
    while i < c.len() && i < l.len()
        invariant
            cs == c@.map_values(|x: u32| x as nat),
            ls == l@.map_values(|x: u32| x as nat),
            cs == version_numbers(current@),
            ls == version_numbers(latest@),
            i <= c@.len(),
            i <= l@.len(),
            newer(cs, ls) == newer(cs.skip(i as int), ls.skip(i as int)),
        decreases c@.len() - i,
    {
        assert(cs.skip(i as int)[0] == c@[i as int] as nat);
        assert(ls.skip(i as int)[0] == l@[i as int] as nat);
        assert(cs.skip(i as int).drop_first() =~= cs.skip(i + 1));
        assert(ls.skip(i as int).drop_first() =~= ls.skip(i + 1));
        if l[i] > c[i] {
            return true;
        } else if l[i] < c[i] {
            return false;
        }
        i += 1;
    }
    l.len() > c.len()
}

/// No version is newer than itself.
pub proof fn lemma_newer_irreflexive(v: Seq<nat>)
    ensures
        !newer(v, v),
    decreases v.len(),
{
    if v.len() > 0 {
        lemma_newer_irreflexive(v.drop_first());
    }
}

/// Of two versions at most one is newer than the other.
pub proof fn lemma_newer_asymmetric(a: Seq<nat>, b: Seq<nat>)
    ensures
        newer(a, b) ==> !newer(b, a),
    decreases a.len(),
{
    if a.len() > 0 && b.len() > 0 && a[0] == b[0] {
        lemma_newer_asymmetric(a.drop_first(), b.drop_first());
    }
}

/// A version newer than a version newer than `a` is newer than `a`.
pub proof fn lemma_newer_transitive(a: Seq<nat>, b: Seq<nat>, c: Seq<nat>)
    requires
        newer(a, b),
        newer(b, c),
    ensures
        newer(a, c),
    decreases a.len(),
{
    if a.len() > 0 && b.len() > 0 && c.len() > 0 && a[0] == b[0] && b[0] == c[0] {
        lemma_newer_transitive(a.drop_first(), b.drop_first(), c.drop_first());
    }
}

/// An update is never needed to reach the running version, and of two
/// versions at most one needs an update to the other.
pub proof fn lemma_needs_update_order(a: Seq<char>, b: Seq<char>)
    ensures
        !newer(version_numbers(a), version_numbers(a)),
        newer(version_numbers(a), version_numbers(b)) ==> !newer(
            version_numbers(b),
            version_numbers(a),
        ),
{
    lemma_newer_irreflexive(version_numbers(a));
    lemma_newer_asymmetric(version_numbers(a), version_numbers(b));
}

/// Release-asset name pattern `os-arch` of a platform.
pub open spec fn platform_pattern(os: Seq<char>, arch: Seq<char>) -> Seq<char> {
    os + "-"@ + arch
}

/// Required file-name suffix on a platform.
pub open spec fn platform_suffix(os: Seq<char>) -> Seq<char> {
    if os == "windows"@ {
        ".exe"@
    } else {
        ""@
    }
}

/// The asset is the build for the platform.
pub open spec fn asset_matches(a: GitHubAsset, os: Seq<char>, arch: Seq<char>) -> bool {
    contains(a.name@, platform_pattern(os, arch)) && ends_with(a.name@, platform_suffix(os))
}

/// Message of the error when no asset fits the platform.
pub open spec fn no_asset_message(pattern: Seq<char>) -> Seq<char> {
    "未找到匹配的二进制文件: "@ + pattern
}

/// The download URL of the first asset built for `platform` (OS, arch).
pub fn find_asset_url(assets: &[GitHubAsset], platform: &(String, String)) -> (r: Result<String>)
    ensures
        match r {
            Ok(url) => exists|i: int|
                0 <= i < assets@.len() && asset_matches(assets@[i], platform.0@, platform.1@)
                    && (forall|j: int|
                    0 <= j < i ==> !asset_matches(#[trigger] assets@[j], platform.0@, platform.1@))
                    && url@ == assets@[i].browser_download_url@,
            Err(e) => (forall|j: int|
                0 <= j < assets@.len() ==> !asset_matches(
                    #[trigger] assets@[j],
                    platform.0@,
                    platform.1@,
                )) && e.0@ == no_asset_message(platform_pattern(platform.0@, platform.1@)),
        },
{
    let suffix = if str_eq(platform.0.as_str(), "windows") {
        ".exe"
    } else {
        ""
    };
    let pattern = concat3(platform.0.as_str(), "-", platform.1.as_str());
    let mut i: usize = 0;
    while i < assets.len()
        invariant
            i <= assets@.len(),
            pattern@ == platform_pattern(platform.0@, platform.1@),
            suffix@ == platform_suffix(platform.0@),
            forall|j: int|
                0 <= j < i ==> !asset_matches(#[trigger] assets@[j], platform.0@, platform.1@),
        decreases assets@.len() - i,
    {
        let a = &assets[i];
        if str_contains(a.name.as_str(), pattern.as_str()) && str_ends_with(a.name.as_str(), suffix) {
            assert(asset_matches(assets@[i as int], platform.0@, platform.1@));
            return Ok(a.browser_download_url.clone());
        }
        i += 1;
    }
    Err(Error::new(concat2("未找到匹配的二进制文件: ", pattern.as_str())))
}

/// `s` with all leading `c` removed (`str::trim_start_matches` with a char).
pub open spec fn trim_leading(s: Seq<char>, c: char) -> Seq<char>
    decreases s.len(),
{
    if s.len() > 0 && s[0] == c {
        trim_leading(s.drop_first(), c)
    } else {
        s
    }
}

/// A tag without its leading `v`s.
pub fn strip_tag_prefix(tag: &str) -> (r: String)
    ensures
        r@ == trim_leading(tag@, 'v'),
{
    let v = chars_of(tag);
    let mut i: usize = 0;
    assert(v@.skip(0) =~= v@);
    while i < v.len() && v[i] == 'v'
        invariant
            i <= v@.len(),
            trim_leading(tag@, 'v') == trim_leading(v@.skip(i as int), 'v'),
            v@ == tag@,
        decreases v@.len() - i,
    {
        assert(v@.skip(i as int).drop_first() =~= v@.skip(i + 1));
        i += 1;
    }
    assert(v@.skip(i as int) =~= v@.subrange(i as int, v@.len() as int));
    string_of(&v, i, v.len())
}

/// The update a release offers on `platform`: its tag without leading
/// `v`s, the URL of the platform's asset, and its notes (empty where it
/// has none).
pub fn update_info_from_release(
    tag_name: &str,
    body: Option<String>,
    assets: &[GitHubAsset],
    platform: &(String, String),
) -> (r: Result<UpdateInfo>)
    ensures
        match r {
            Ok(info) => {
                &&& info.latest_version@ == trim_leading(tag_name@, 'v')
                &&& info.release_notes@ == match body {
                    Some(b) => b@,
                    None => Seq::<char>::empty(),
                }
                &&& exists|i: int|
                    0 <= i < assets@.len() && asset_matches(assets@[i], platform.0@, platform.1@)
                        && (forall|j: int|
                        0 <= j < i ==> !asset_matches(
                            #[trigger] assets@[j],
                            platform.0@,
                            platform.1@,
                        )) && info.download_url@ == assets@[i].browser_download_url@
            },
            Err(e) => (forall|j: int|
                0 <= j < assets@.len() ==> !asset_matches(
                    #[trigger] assets@[j],
                    platform.0@,
                    platform.1@,
                )) && e.0@ == no_asset_message(platform_pattern(platform.0@, platform.1@)),
        },
{
    let tag = strip_tag_prefix(tag_name);
    let download_url = match find_asset_url(assets, platform) {
        Ok(u) => u,
        Err(e) => return Err(e),
    };
    let release_notes = match body {
        Some(b) => b,
        None => String::new(),
    };
    Ok(UpdateInfo { latest_version: tag, download_url, release_notes })
}

/// Release name of an operating system (from std's `consts::OS`).
pub open spec fn os_release_name(os: Seq<char>) -> Option<Seq<char>> {
    if os == "linux"@ {
        Some("linux"@)
    } else if os == "macos"@ {
        Some("macos"@)
    } else if os == "windows"@ {
        Some("windows"@)
    } else {
        None
    }
}

/// Release name of an architecture (from std's `consts::ARCH`).
pub open spec fn arch_release_name(arch: Seq<char>) -> Option<Seq<char>> {
    if arch == "x86_64"@ {
        Some("amd64"@)
    } else if arch == "aarch64"@ {
        Some("arm64"@)
    } else {
        None
    }
}

/// The release platform (OS, arch) for the running OS and architecture.
pub fn platform_for(os: &str, arch: &str) -> (r: Result<(String, String)>)
    ensures
        match r {
            Ok((o, a)) => os_release_name(os@) == Some(o@) && arch_release_name(arch@) == Some(
                a@,
            ),
            Err(e) => (os_release_name(os@) is None && e.0@ == "不支持的操作系统: "@ + os@) || (
            os_release_name(os@) is Some && arch_release_name(arch@) is None && e.0@
                == "不支持的架构: "@ + arch@),
        },
{
    let os_str = if str_eq(os, "linux") {
        "linux"
    } else if str_eq(os, "macos") {
        "macos"
    } else if str_eq(os, "windows") {
        "windows"
    } else {
        return Err(Error::new(concat2("不支持的操作系统: ", os)));
    };
    let arch_str = if str_eq(arch, "x86_64") {
        "amd64"
    } else if str_eq(arch, "aarch64") {
        "arm64"
    } else {
        return Err(Error::new(concat2("不支持的架构: ", arch)));
    };
    Ok((owned(os_str), owned(arch_str)))
}

} // verus!
