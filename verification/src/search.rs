//! Search of Maven Central: query URLs and the lines shown for results.

use vstd::prelude::*;
use crate::error::Result;
use crate::num::{decimal, usize_to_decimal, u64_to_decimal};
use crate::text::{owned, concat2, concat3, push_str, views, str_is_empty};
use crate::util::parse_coord;
use crate::text::split;

verus! {

/// One search result document, as read from Maven Central's answer.
#[derive(Debug, Clone)]
pub struct SearchDoc {
    pub group_id: Option<String>,
    pub artifact_id: Option<String>,
    pub latest_version: Option<String>,
    pub version_count: Option<u32>,
    pub description: Option<String>,
    pub extensions: Option<Vec<String>>,
}

/// URL of a keyword search returning at most `limit` results.
pub open spec fn search_url_of(keyword: Seq<char>, limit: nat) -> Seq<char> {
    "https://search.maven.org/solrsearch/select?q="@ + keyword + "&rows="@ + decimal(limit)
        + "&wt=json"@
}

/// URL of a keyword search returning at most `limit` results.
pub fn search_url(keyword: &str, limit: usize) -> (r: String)
    ensures
        r@ == search_url_of(keyword@, limit as nat),
{
    let mut s = concat3("https://search.maven.org/solrsearch/select?q=", keyword, "&rows=");
    push_str(&mut s, usize_to_decimal(limit).as_str());
    push_str(&mut s, "&wt=json");
    s
}

/// URL listing the versions of `group:artifact`.
pub open spec fn versions_url_of(group: Seq<char>, artifact: Seq<char>) -> Seq<char> {
    "https://search.maven.org/solrsearch/select?q=g:"@ + group + "+AND+a:"@ + artifact
        + "&core=gav&rows=100&wt=json"@
}

/// URL listing the versions of the artifact named by `coord`.
pub fn versions_url(coord: &str) -> (r: Result<String>)
    ensures
        match r {
            Ok(u) => split(coord@, ':').len() >= 2 && u@ == versions_url_of(
                split(coord@, ':')[0],
                split(coord@, ':')[1],
            ),
            Err(e) => split(coord@, ':').len() < 2 && e.0@
                == crate::util::invalid_coord_message(coord@),
        },
{
    let (g, a) = match parse_coord(coord) {
        Ok(p) => p,
        Err(e) => return Err(e),
    };
    let mut s = concat3("https://search.maven.org/solrsearch/select?q=g:", g.as_str(), "+AND+a:");
    push_str(&mut s, a.as_str());
    push_str(&mut s, "&core=gav&rows=100&wt=json");
    Ok(s)
}

/// A field shown as `?` when missing.
pub open spec fn or_unknown(o: Option<String>) -> Seq<char> {
    match o {
        Some(s) => s@,
        None => "?"@,
    }
}

/// Lines shown for one search result: `group:artifact (version)`, then
/// its description when it has a non-empty one.
pub open spec fn doc_lines(d: SearchDoc) -> Seq<Seq<char>> {
    let head = "  "@ + or_unknown(d.group_id) + ":"@ + or_unknown(d.artifact_id) + " ("@
        + or_unknown(d.latest_version) + ")"@;
    let desc = match d.description {
        Some(s) => s@,
        None => Seq::empty(),
    };
    if desc.len() > 0 {
        seq![head, "    "@ + desc]
    } else {
        seq![head]
    }
}

/// Lines for the results, in order.
pub open spec fn docs_lines(ds: Seq<SearchDoc>) -> Seq<Seq<char>>
    decreases ds.len(),
{
    if ds.len() == 0 {
        Seq::empty()
    } else {
        docs_lines(ds.drop_last()) + doc_lines(ds.last())
    }
}

/// A field's text, or `?`.
fn text_or_unknown(o: &Option<String>) -> (r: &str)
    ensures
        r@ == or_unknown(*o),
{
    match o {
        Some(s) => s.as_str(),
        None => "?",
    }
}

/// The lines printed for a keyword search: a notice when nothing was
/// found, else a title, an empty line, and each result.
pub fn search_lines(keyword: &str, docs: &Vec<SearchDoc>) -> (r: Vec<String>)
    ensures
        views(r@) == if docs@.len() == 0 {
            seq!["未找到结果: "@ + keyword@]
        } else {
            seq!["搜索结果: \""@ + keyword@ + "\""@, Seq::<char>::empty()] + docs_lines(docs@)
        },
{
    let mut out: Vec<String> = Vec::new();
    if docs.len() == 0 {
        out.push(concat2("未找到结果: ", keyword));
        assert(views(out@) =~= seq!["未找到结果: "@ + keyword@]);
        return out;
    }
    out.push(concat3("搜索结果: \"", keyword, "\""));
    out.push(String::new());
    let ghost base = views(out@);
    assert(base =~= seq!["搜索结果: \""@ + keyword@ + "\""@, Seq::<char>::empty()]);
    let mut i: usize = 0;
    assert(docs@.take(0) =~= Seq::<SearchDoc>::empty());
    while i < docs.len()
        invariant
            i <= docs@.len(),
            views(out@) == base + docs_lines(docs@.take(i as int)),
        decreases docs@.len() - i,
    {
        assert(docs@.take(i + 1).drop_last() =~= docs@.take(i as int));
        assert(docs@.take(i + 1).last() == docs@[i as int]);
        let d = &docs[i];
        let ghost o0 = views(out@);
        let mut head = concat3("  ", text_or_unknown(&d.group_id), ":");
        push_str(&mut head, text_or_unknown(&d.artifact_id));
        push_str(&mut head, " (");
        push_str(&mut head, text_or_unknown(&d.latest_version));
        push_str(&mut head, ")");
        out.push(head);
        let desc = match &d.description {
            Some(s) => s.as_str(),
            None => "",
        };
        proof {
            reveal_strlit("");
        }
        if !str_is_empty(desc) {
            out.push(concat2("    ", desc));
        }
        assert(views(out@) =~= o0 + doc_lines(*d));
        i += 1;
    }
    assert(docs@.take(i as int) =~= docs@);
    out
}

/// Line shown for one version document.
pub open spec fn version_line(d: SearchDoc) -> Seq<char> {
    match d.version_count {
        Some(c) => "  "@ + or_unknown(d.latest_version) + " (共 "@ + decimal(c as nat) + " 个版本)"@,
        None => "  "@ + or_unknown(d.latest_version),
    }
}

/// The lines printed for the versions of `coord`.
pub fn version_lines(coord: &str, docs: &Vec<SearchDoc>) -> (r: Vec<String>)
    ensures
        views(r@) == if docs@.len() == 0 {
            seq!["未找到版本: "@ + coord@]
        } else {
            seq![coord@ + " 的版本:"@] + docs@.map_values(|d: SearchDoc| version_line(d))
        },
{
    let mut out: Vec<String> = Vec::new();
    if docs.len() == 0 {
        out.push(concat2("未找到版本: ", coord));
        assert(views(out@) =~= seq!["未找到版本: "@ + coord@]);
        return out;
    }
    out.push(concat2(coord, " 的版本:"));
    let ghost base = views(out@);
    let mut i: usize = 0;
    while i < docs.len()
        invariant
            i <= docs@.len(),
            base == seq![coord@ + " 的版本:"@],
            views(out@) == base + docs@.take(i as int).map_values(|d: SearchDoc| version_line(d)),
        decreases docs@.len() - i,
    {
        let d = &docs[i];
        let ghost o0 = views(out@);
        let mut l = concat2("  ", text_or_unknown(&d.latest_version));
        match d.version_count {
            Some(c) => {
                push_str(&mut l, " (共 ");
                push_str(&mut l, u64_to_decimal(c as u64).as_str());
                push_str(&mut l, " 个版本)");
            },
            None => {},
        }
        out.push(l);
        assert(docs@.take(i + 1).map_values(|d: SearchDoc| version_line(d)) =~= docs@.take(
            i as int,
        ).map_values(|d: SearchDoc| version_line(d)).push(version_line(*d)));
        assert(views(out@) =~= o0.push(version_line(*d)));
        i += 1;
    }
    assert(docs@.take(i as int) =~= docs@);
    out
}

} // verus!
