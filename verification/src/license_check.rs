//! License check when a dependency is added: which SPDX ids a project
//! accepts, what a POM says of its license, and the report over all
//! dependencies.

use vstd::prelude::*;
use crate::error::Result;
use crate::text::{
    contains, find, rfind_char, split, views, chars_of, find_seq, seq_contains, seq_rfind_char,
    string_of, str_eq, str_split, str_replace_char, replace_char, owned, concat3, push_str,
    lemma_split_acc_len,
};

verus! {

/// Result of checking one dependency's license.
#[derive(Debug, Clone)]
pub struct LicenseCheckResult {
    pub spdx_id: String,
    pub is_compatible: bool,
    pub issues: Vec<String>,
}

/// Dependencies sorted by the outcome of their license check.
#[derive(Debug, Clone)]
pub struct LicenseReport {
    pub compatible: Vec<String>,
    pub incompatible: Vec<String>,
    pub unknown: Vec<String>,
}

/// SPDX ids of the permissive licenses a project accepts.
pub open spec fn permissive_ids() -> Seq<Seq<char>> {
    seq![
        "MIT"@,
        "Apache-2.0"@,
        "BSD-2-Clause"@,
        "BSD-3-Clause"@,
        "ISC"@,
        "Unlicense"@,
        "0BSD"@,
        "Zlib"@,
    ]
}

/// SPDX ids of the weak-copyleft licenses a project accepts.
pub open spec fn weak_copyleft_ids() -> Seq<Seq<char>> {
    seq!["LGPL-2.1"@, "LGPL-3.0"@, "MPL-2.0"@, "EPL-1.0"@, "EPL-2.0"@]
}

/// A project accepts the license: it is a known permissive or
/// weak-copyleft id (and never `Unknown`).
pub open spec fn accepted(spdx: Seq<char>) -> bool {
    spdx != "Unknown"@ && (permissive_ids().contains(spdx) || weak_copyleft_ids().contains(spdx))
}

/// Whether the license with SPDX id `spdx_id` is compatible.
pub fn is_license_compatible(spdx_id: &str) -> (r: bool)
    ensures
        r == accepted(spdx_id@),
{
    if str_eq(spdx_id, "Unknown") {
        return false;
    }
    let ids: [&str; 13] = [
        "MIT",
        "Apache-2.0",
        "BSD-2-Clause",
        "BSD-3-Clause",
        "ISC",
        "Unlicense",
        "0BSD",
        "Zlib",
        "LGPL-2.1",
        "LGPL-3.0",
        "MPL-2.0",
        "EPL-1.0",
        "EPL-2.0",
    ];
    let ghost all = permissive_ids() + weak_copyleft_ids();
    assert(ids@.map_values(|x: &str| x@) =~= all);
    let mut i: usize = 0;
    while i < 13
        invariant
            i <= 13,
            ids@.map_values(|x: &str| x@) == all,
            all == permissive_ids() + weak_copyleft_ids(),
            forall|k: int| 0 <= k < i ==> all[k] != spdx_id@,
            spdx_id@ != "Unknown"@,
        decreases 13 - i,
    {
        assert(all[i as int] == ids@[i as int]@);
        if str_eq(spdx_id, ids[i]) {
            proof {
                if (i as int) < 8 {
                    assert(permissive_ids()[i as int] == all[i as int]);
                    assert(permissive_ids().contains(spdx_id@));
                } else {
                    assert(weak_copyleft_ids()[i - 8] == all[i as int]);
                    assert(weak_copyleft_ids().contains(spdx_id@));
                }
            }
            return true;
        }
        i += 1;
    }
    proof {
        if permissive_ids().contains(spdx_id@) {
            let k = choose|k: int| 0 <= k < 8 && permissive_ids()[k] == spdx_id@;
            assert(all[k] == permissive_ids()[k]);
        }
        if weak_copyleft_ids().contains(spdx_id@) {
            let k = choose|k: int| 0 <= k < 5 && weak_copyleft_ids()[k] == spdx_id@;
            assert(all[k + 8] == weak_copyleft_ids()[k]);
        }
    }
    false
}

/// The license a POM names in one of the spellings known here.
pub open spec fn named_license(pom: Seq<char>) -> Option<Seq<char>> {
    if contains(pom, "<name>MIT</name>"@) {
        Some("MIT"@)
    } else if contains(pom, "<name>Apache License, Version 2.0</name>"@) {
        Some("Apache-2.0"@)
    } else if contains(pom, "<name>BSD License</name>"@) {
        Some("BSD-3-Clause"@)
    } else if contains(pom, "<name>ISC License</name>"@) {
        Some("ISC"@)
    } else if contains(pom, "<name>The Unlicense</name>"@) {
        Some("Unlicense"@)
    } else {
        None
    }
}

/// The first `<url>` of the POM opens before its first `</url>`, or one of
/// them is missing.
pub open spec fn url_span_ok(pom: Seq<char>) -> bool {
    match (find(pom, "<url>"@), find(pom, "</url>"@)) {
        (Some(s), Some(e)) => s + "<url>"@.len() <= e,
        _ => true,
    }
}

/// The license of a POM: a known name, else the last path segment of an
/// `spdx.org` URL between the first `<url>` and the first `</url>`.
pub open spec fn pom_spdx(pom: Seq<char>) -> Option<Seq<char>> {
    match named_license(pom) {
        Some(id) => Some(id),
        None => match (find(pom, "<url>"@), find(pom, "</url>"@)) {
            (Some(s), Some(e)) => {
                let url = pom.subrange(s + "<url>"@.len(), e);
                if contains(url, "spdx.org"@) {
                    match rfind_char(url, '/') {
                        Some(p) => Some(url.subrange(p + 1, url.len() as int)),
                        None => None,
                    }
                } else {
                    None
                }
            },
            _ => None,
        },
    }
}

/// Whether a POM text can be searched for its license: it names a known
/// license, or its first `<url>` opens before its first `</url>` (what
/// `extract_license_from_pom` asks of its text).
pub fn pom_license_readable(pom_content: &str) -> (r: bool)
    ensures
        r == (named_license(pom_content@) is Some || url_span_ok(pom_content@)),
{
    let pv = chars_of(pom_content);
    if seq_contains(&pv, &chars_of("<name>MIT</name>")) || seq_contains(
        &pv,
        &chars_of("<name>Apache License, Version 2.0</name>"),
    ) || seq_contains(&pv, &chars_of("<name>BSD License</name>")) || seq_contains(
        &pv,
        &chars_of("<name>ISC License</name>"),
    ) || seq_contains(&pv, &chars_of("<name>The Unlicense</name>")) {
        return true;
    }
    let start_tag = chars_of("<url>");
    let end_tag = chars_of("</url>");
    match (find_seq(&pv, &start_tag), find_seq(&pv, &end_tag)) {
        (Some(start), Some(end)) => start <= end && end - start >= start_tag.len(),
        _ => true,
    }
}

/// The SPDX id that a POM text gives for its license, if any.
pub fn extract_license_from_pom(pom_content: &str) -> (r: Option<String>)
    requires
        named_license(pom_content@) is Some || url_span_ok(pom_content@),
    ensures
        match r {
            Some(x) => pom_spdx(pom_content@) == Some(x@),
            None => pom_spdx(pom_content@) is None,
        },
{
    let pv = chars_of(pom_content);
    let mit = chars_of("<name>MIT</name>");
    let apache = chars_of("<name>Apache License, Version 2.0</name>");
    let bsd = chars_of("<name>BSD License</name>");
    let isc = chars_of("<name>ISC License</name>");
    let unl = chars_of("<name>The Unlicense</name>");
    if seq_contains(&pv, &mit) {
        Some(owned("MIT"))
    } else if seq_contains(&pv, &apache) {
        Some(owned("Apache-2.0"))
    } else if seq_contains(&pv, &bsd) {
        Some(owned("BSD-3-Clause"))
    } else if seq_contains(&pv, &isc) {
        Some(owned("ISC"))
    } else if seq_contains(&pv, &unl) {
        Some(owned("Unlicense"))
    } else {
        let start_tag = chars_of("<url>");
        let end_tag = chars_of("</url>");
        match (find_seq(&pv, &start_tag), find_seq(&pv, &end_tag)) {
            (Some(start), Some(end)) => {
                let url_s = string_of(&pv, start + start_tag.len(), end);
                let url = chars_of(url_s.as_str());
                let spdx = chars_of("spdx.org");
                if seq_contains(&url, &spdx) {
                    match seq_rfind_char(&url, '/') {
                        Some(pos) => Some(string_of(&url, pos + 1, url.len())),
                        None => None,
                    }
                } else {
                    None
                }
            },
            _ => None,
        }
    }
}

/// Maven Central URL of the POM of `group_path/artifact/version`.
pub open spec fn pom_url(group_path: Seq<char>, artifact: Seq<char>, version: Seq<char>) -> Seq<
    char,
> {
    "https://repo1.maven.org/maven2/"@ + group_path + "/"@ + artifact + "/"@ + version + "/"@
        + artifact + ".pom"@
}

/// Maven Central URL of the POM of `group:artifact:version` (dots of the
/// group become path separators).
pub fn maven_pom_url(group: &str, artifact: &str, version: &str) -> (r: String)
    ensures
        r@ == pom_url(replace_char(group@, '.', "/"@), artifact@, version@),
{
    let path = str_replace_char(group, '.', "/");
    let mut url = concat3("https://repo1.maven.org/maven2/", path.as_str(), "/");
    push_str(&mut url, artifact);
    push_str(&mut url, "/");
    push_str(&mut url, version);
    push_str(&mut url, "/");
    push_str(&mut url, artifact);
    push_str(&mut url, ".pom");
    url
}

/// Versions whose POMs are tried, in order, to find a dependency's license.
pub open spec fn probe_versions() -> Seq<Seq<char>> {
    seq!["1.0.0"@, "2.0.0"@, "3.0.0"@]
}

/// The POM URLs to try for `group:artifact`, in order; `None` unless the
/// coordinate has exactly two `:`-separated parts.
pub fn pom_candidate_urls(coord: &str) -> (r: Option<Vec<String>>)
    ensures
        match r {
            Some(urls) => {
                let parts = split(coord@, ':');
                &&& parts.len() == 2
                &&& urls@.len() == 3
                &&& forall|k: int|
                    0 <= k < 3 ==> #[trigger] urls@[k]@ == pom_url(
                        replace_char(parts[0], '.', "/"@),
                        parts[1],
                        probe_versions()[k],
                    )
            },
            None => split(coord@, ':').len() != 2,
        },
{
    let parts = str_split(coord, ':');
    proof {
        assert(views(parts@).len() == parts@.len());
    }
    if parts.len() != 2 {
        return None;
    }
    proof {
        assert(views(parts@)[0] == parts@[0]@);
        assert(views(parts@)[1] == parts@[1]@);
    }
    let g = parts[0].as_str();
    let a = parts[1].as_str();
    let mut urls: Vec<String> = Vec::new();
    urls.push(maven_pom_url(g, a, "1.0.0"));
    urls.push(maven_pom_url(g, a, "2.0.0"));
    urls.push(maven_pom_url(g, a, "3.0.0"));
    Some(urls)
}

/// Issue reported when a dependency's license cannot be found.
pub open spec fn unknown_issue() -> Seq<char> {
    "无法获取许可证信息"@
}

/// Issue reported for a license that a project may not accept.
pub open spec fn incompatible_issue(spdx: Seq<char>) -> Seq<char> {
    "许可证 "@ + spdx + " 可能与项目不兼容"@
}

/// The check of one dependency, given the license its POM gave (`None`
/// when no POM could be read or none named a license).
pub fn check_dependency_license(found: Option<String>) -> (r: Result<LicenseCheckResult>)
    ensures
        r matches Ok(c) && {
            let spdx = match found {
                Some(x) => x@,
                None => "Unknown"@,
            };
            &&& c.spdx_id@ == spdx
            &&& c.is_compatible == accepted(spdx)
            &&& c.issues@.map_values(|x: String| x@) == if spdx == "Unknown"@ {
                seq![unknown_issue()]
            } else if !accepted(spdx) {
                seq![incompatible_issue(spdx)]
            } else {
                Seq::empty()
            }
        },
{
    let spdx_id = match found {
        Some(x) => x,
        None => owned("Unknown"),
    };
    let is_compatible = is_license_compatible(spdx_id.as_str());
    let mut issues: Vec<String> = Vec::new();
    if str_eq(spdx_id.as_str(), "Unknown") {
        issues.push(owned("无法获取许可证信息"));
    } else if !is_compatible {
        issues.push(concat3("许可证 ", spdx_id.as_str(), " 可能与项目不兼容"));
    }
    proof {
        let want = if spdx_id@ == "Unknown"@ {
            seq![unknown_issue()]
        } else if !accepted(spdx_id@) {
            seq![incompatible_issue(spdx_id@)]
        } else {
            Seq::<Seq<char>>::empty()
        };
        assert(issues@.map_values(|x: String| x@) =~= want);
    }
    Ok(LicenseCheckResult { spdx_id, is_compatible, issues })
}

/// Which list a checked dependency goes to: 0 compatible, 1 incompatible,
/// 2 unknown.
pub open spec fn bucket(c: LicenseCheckResult) -> int {
    if c.spdx_id@ == "Unknown"@ {
        2
    } else if c.is_compatible {
        0
    } else {
        1
    }
}

/// Coordinates of the checked dependencies that go to list `b`, in order.
pub open spec fn coords_in(checked: Seq<(String, LicenseCheckResult)>, b: int) -> Seq<Seq<char>>
    decreases checked.len(),
{
    if checked.len() == 0 {
        Seq::empty()
    } else {
        let rest = coords_in(checked.drop_last(), b);
        if bucket(checked.last().1) == b {
            rest.push(checked.last().0@)
        } else {
            rest
        }
    }
}

/// Sorts checked dependencies (coordinate, check result) into compatible,
/// incompatible and unknown ones, keeping their order.
pub fn check_all_licenses(checked: &Vec<(String, LicenseCheckResult)>) -> (r: Result<LicenseReport>)
    ensures
        r matches Ok(rep) && {
            &&& rep.compatible@.map_values(|x: String| x@) == coords_in(checked@, 0)
            &&& rep.incompatible@.map_values(|x: String| x@) == coords_in(checked@, 1)
            &&& rep.unknown@.map_values(|x: String| x@) == coords_in(checked@, 2)
        },
{
    let mut compatible: Vec<String> = Vec::new();
    let mut incompatible: Vec<String> = Vec::new();
    let mut unknown: Vec<String> = Vec::new();
    let ghost s = checked@;
    let mut i: usize = 0;
    assert(s.take(0) =~= Seq::<(String, LicenseCheckResult)>::empty());
    while i < checked.len()
        invariant
            s == checked@,
            i <= s.len(),
            compatible@.map_values(|x: String| x@) == coords_in(s.take(i as int), 0),
            incompatible@.map_values(|x: String| x@) == coords_in(s.take(i as int), 1),
            unknown@.map_values(|x: String| x@) == coords_in(s.take(i as int), 2),
        decreases s.len() - i,
    {
        let e = &checked[i];
        assert(s.take(i + 1).drop_last() =~= s.take(i as int));
        assert(s.take(i + 1).last() == s[i as int]);
        let ghost c0 = compatible@;
        let ghost i0 = incompatible@;
        let ghost u0 = unknown@;
        if str_eq(e.1.spdx_id.as_str(), "Unknown") {
            unknown.push(e.0.clone());
            assert(unknown@.map_values(|x: String| x@) =~= u0.map_values(|x: String| x@).push(e.0@));
        } else if e.1.is_compatible {
            compatible.push(e.0.clone());
            assert(compatible@.map_values(|x: String| x@) =~= c0.map_values(|x: String| x@).push(e.0@));
        } else {
            incompatible.push(e.0.clone());
            assert(incompatible@.map_values(|x: String| x@) =~= i0.map_values(|x: String| x@).push(e.0@));
        }
        i += 1;
    }
    assert(s.take(s.len() as int) =~= s);
    Ok(LicenseReport { compatible, incompatible, unknown })
}

} // verus!
