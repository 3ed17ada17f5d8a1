//! Detailed dependency tree: version, license and known vulnerabilities of
//! each dependency, filtering, and the terminal rendering.

use vstd::prelude::*;
use crate::audit::{Vulnerability, severity_name};
use crate::error::Result;
use crate::license::{LicenseInfo, category_name};
use crate::num::{decimal, usize_to_decimal};
use crate::tally::{tally, tally_strings, count_views};
use crate::text::{
    lowercase, to_lowercase, contains, str_contains, str_eq, owned, push_str, split, views,
    str_split, join_pair,
};

verus! {

/// The detailed tree: one node per dependency.
#[derive(Debug, Clone)]
pub struct TreeReport {
    pub nodes: Vec<TreeNode>,
}

/// One dependency with its license and vulnerabilities.
#[derive(Debug, Clone)]
pub struct TreeNode {
    pub name: String,
    pub group: String,
    pub artifact: String,
    pub version: String,
    pub license: String,
    pub license_category: String,
    pub vulnerabilities: Vec<VulnSummary>,
}

/// A vulnerability in brief.
#[derive(Debug, Clone)]
pub struct VulnSummary {
    pub cve_id: String,
    pub severity: String,
    pub fixed_version: Option<String>,
}

/// View of a vulnerability summary.
pub open spec fn vuln_view(v: VulnSummary) -> (Seq<char>, Seq<char>, Option<Seq<char>>) {
    (
        v.cve_id@,
        v.severity@,
        match v.fixed_version {
            Some(f) => Some(f@),
            None => None,
        },
    )
}

/// Views of vulnerability summaries.
pub open spec fn vulns_view(vs: Seq<VulnSummary>) -> Seq<(Seq<char>, Seq<char>, Option<Seq<char>>)> {
    vs.map_values(|v: VulnSummary| vuln_view(v))
}

/// View of a node: name, group, artifact, version, license, category and
/// vulnerabilities.
pub open spec fn node_view(n: TreeNode) -> (
    Seq<char>,
    Seq<char>,
    Seq<char>,
    Seq<char>,
    Seq<char>,
    Seq<char>,
    Seq<(Seq<char>, Seq<char>, Option<Seq<char>>)>,
) {
    (
        n.name@,
        n.group@,
        n.artifact@,
        n.version@,
        n.license@,
        n.license_category@,
        vulns_view(n.vulnerabilities@),
    )
}

/// A copy of a vulnerability summary.
fn copy_vuln(v: &VulnSummary) -> (r: VulnSummary)
    ensures
        vuln_view(r) == vuln_view(*v),
{
    VulnSummary {
        cve_id: v.cve_id.clone(),
        severity: v.severity.clone(),
        fixed_version: match &v.fixed_version {
            Some(f) => Some(f.clone()),
            None => None,
        },
    }
}

/// A copy of a node.
fn copy_node(n: &TreeNode) -> (r: TreeNode)
    ensures
        node_view(r) == node_view(*n),
{
    let mut vs: Vec<VulnSummary> = Vec::new();
    let mut i: usize = 0;
    while i < n.vulnerabilities.len()
        invariant
            i <= n.vulnerabilities@.len(),
            vulns_view(vs@) == vulns_view(n.vulnerabilities@.take(i as int)),
        decreases n.vulnerabilities@.len() - i,
    {
        let ghost v0 = vs@;
        let nv = copy_vuln(&n.vulnerabilities[i]);
        vs.push(nv);
        assert(vulns_view(vs@) =~= vulns_view(v0).push(vuln_view(nv)));
        assert(n.vulnerabilities@.take(i + 1) =~= n.vulnerabilities@.take(i as int).push(
            n.vulnerabilities@[i as int],
        ));
        assert(vulns_view(vs@) =~= vulns_view(n.vulnerabilities@.take(i + 1)));
        i += 1;
    }
    assert(n.vulnerabilities@.take(i as int) =~= n.vulnerabilities@);
    TreeNode {
        name: n.name.clone(),
        group: n.group.clone(),
        artifact: n.artifact.clone(),
        version: n.version.clone(),
        license: n.license.clone(),
        license_category: n.license_category.clone(),
        vulnerabilities: vs,
    }
}

/// `needle` (already lower-cased) occurs in the lower-cased `hay`.
pub open spec fn mentions(hay: Seq<char>, needle: Seq<char>) -> bool {
    contains(lowercase(hay), needle)
}

/// The node mentions the lower-cased filter in one of its fields or in
/// the id of one of its vulnerabilities, without regard to case.
pub open spec fn node_mentions(n: TreeNode, f: Seq<char>) -> bool {
    mentions(n.name@, f) || mentions(n.group@, f) || mentions(n.artifact@, f) || mentions(
        n.version@,
        f,
    ) || mentions(n.license@, f) || mentions(n.license_category@, f) || exists|k: int|
        0 <= k < n.vulnerabilities@.len() && mentions(
            #[trigger] n.vulnerabilities@[k].cve_id@,
            f,
        )
}

/// The nodes that mention `f`, in order.
pub open spec fn nodes_mentioning(nodes: Seq<TreeNode>, f: Seq<char>) -> Seq<TreeNode>
    decreases nodes.len(),
{
    if nodes.len() == 0 {
        Seq::empty()
    } else if node_mentions(nodes.last(), f) {
        nodes_mentioning(nodes.drop_last(), f).push(nodes.last())
    } else {
        nodes_mentioning(nodes.drop_last(), f)
    }
}

/// A node is kept by the filter when the lower-cased id of one of its
/// vulnerabilities holds the (lower-cased) filter, or its lower-cased
/// name, group, artifact, version, license or license category does; and
/// every node kept is one of the report's nodes.
pub proof fn lemma_filter_keeps_matches(nodes: Seq<TreeNode>, f: Seq<char>, i: int)
    requires
        0 <= i < nodes.len(),
    ensures
        (exists|k: int|
            0 <= k < nodes[i].vulnerabilities@.len() && contains(
                lowercase(#[trigger] nodes[i].vulnerabilities@[k].cve_id@),
                f,
            )) ==> nodes_mentioning(nodes, f).contains(nodes[i]),
        contains(lowercase(nodes[i].name@), f) || contains(lowercase(nodes[i].group@), f) || contains(
            lowercase(nodes[i].artifact@),
            f,
        ) || contains(lowercase(nodes[i].version@), f) || contains(lowercase(nodes[i].license@), f)
            || contains(lowercase(nodes[i].license_category@), f) ==> nodes_mentioning(nodes, f).contains(
            nodes[i],
        ),
        forall|j: int|
            0 <= j < nodes_mentioning(nodes, f).len() ==> nodes.contains(
                #[trigger] nodes_mentioning(nodes, f)[j],
            ),
    decreases nodes.len(),
{
    let prev = nodes.drop_last();
    let out = nodes_mentioning(nodes, f);
    if i < nodes.len() - 1 {
        lemma_filter_keeps_matches(prev, f, i);
        assert(prev[i] == nodes[i]);
        if nodes_mentioning(prev, f).contains(nodes[i]) {
            let j = choose|j: int| 0 <= j < nodes_mentioning(prev, f).len() && nodes_mentioning(prev, f)[j] == nodes[i];
            assert(out[j] == nodes[i]);
        }
    } else if nodes.len() > 1 {
        lemma_filter_keeps_matches(prev, f, 0);
    }
    if node_mentions(nodes.last(), f) {
        assert(out.last() == nodes.last());
    }
    assert(out.contains(nodes[i]) <== node_mentions(nodes[i], f) && i == nodes.len() - 1) by {
        if node_mentions(nodes[i], f) && i == nodes.len() - 1 {
            assert(out[out.len() - 1] == nodes[i]);
        }
    }
    assert forall|j: int| 0 <= j < out.len() implies nodes.contains(#[trigger] out[j]) by {
        if nodes.len() > 0 {
            if j < nodes_mentioning(prev, f).len() {
                assert(out[j] == nodes_mentioning(prev, f)[j]);
                if prev.len() > 0 {
                    assert(nodes.contains(out[j])) by {
                        assert(prev.contains(nodes_mentioning(prev, f)[j]));
                        let m = choose|m: int| 0 <= m < prev.len() && prev[m] == out[j];
                        assert(nodes[m] == out[j]);
                    }
                }
            } else {
                assert(out[j] == nodes.last());
                assert(nodes[nodes.len() - 1] == out[j]);
            }
        }
    }
}

/// Whether the lower-cased `hay` holds `needle`.
fn lower_contains(hay: &str, needle: &str) -> (r: bool)
    ensures
        r == mentions(hay@, needle@),
{
    let l = to_lowercase(hay);
    str_contains(l.as_str(), needle)
}

/// Whether the node mentions `f` (already lower-cased).
fn node_matches(n: &TreeNode, f: &str) -> (r: bool)
    ensures
        r == node_mentions(*n, f@),
{
    if lower_contains(n.name.as_str(), f) || lower_contains(n.group.as_str(), f) || lower_contains(
        n.artifact.as_str(),
        f,
    ) || lower_contains(n.version.as_str(), f) || lower_contains(n.license.as_str(), f)
        || lower_contains(n.license_category.as_str(), f) {
        return true;
    }
    let mut k: usize = 0;
    while k < n.vulnerabilities.len()
        invariant
            k <= n.vulnerabilities@.len(),
            forall|j: int| 0 <= j < k ==> !mentions(#[trigger] n.vulnerabilities@[j].cve_id@, f@),
        decreases n.vulnerabilities@.len() - k,
    {
        if lower_contains(n.vulnerabilities[k].cve_id.as_str(), f) {
            return true;
        }
        k += 1;
    }
    false
}

/// The nodes of the report that mention `filter`, without regard to case,
/// in any field or vulnerability id.
pub fn filter_report(report: &TreeReport, filter: &str) -> (r: TreeReport)
    ensures
        r.nodes@.map_values(|n: TreeNode| node_view(n)) == nodes_mentioning(
            report.nodes@,
            lowercase(filter@),
        ).map_values(|n: TreeNode| node_view(n)),
{
    let lower_filter = to_lowercase(filter);
    let ghost s = report.nodes@;
    let ghost f = lower_filter@;
    let mut out: Vec<TreeNode> = Vec::new();
    let mut i: usize = 0;
    assert(s.take(0) =~= Seq::<TreeNode>::empty());
    while i < report.nodes.len()
        invariant
            s == report.nodes@,
            f == lower_filter@,
            f == lowercase(filter@),
            i <= s.len(),
            out@.map_values(|n: TreeNode| node_view(n)) == nodes_mentioning(
                s.take(i as int),
                f,
            ).map_values(|n: TreeNode| node_view(n)),
        decreases s.len() - i,
    {
        assert(s.take(i + 1).drop_last() =~= s.take(i as int));
        assert(s.take(i + 1).last() == s[i as int]);
        let n = &report.nodes[i];
        if node_matches(n, lower_filter.as_str()) {
            let ghost o0 = out@;
            out.push(copy_node(n));
            assert(out@.map_values(|n: TreeNode| node_view(n)) =~= o0.map_values(
                |n: TreeNode| node_view(n),
            ).push(node_view(s[i as int])));
            assert(nodes_mentioning(s.take(i + 1), f).map_values(|n: TreeNode| node_view(n))
                =~= nodes_mentioning(s.take(i as int), f).map_values(|n: TreeNode| node_view(n)).push(
                node_view(s[i as int]),
            ));
        }
        i += 1;
    }
    assert(s.take(s.len() as int) =~= s);
    TreeReport { nodes: out }
}

// ───────────────────────────── rendering ─────────────────────────────

/// Marker of a license category name.
pub open spec fn category_marker(c: Seq<char>) -> Seq<char> {
    if c == "Permissive"@ {
        "🟢"@
    } else if c == "Weak Copyleft"@ {
        "🟡"@
    } else if c == "Strong Copyleft"@ {
        "🔴"@
    } else {
        "⚪"@
    }
}

/// Marker of a severity name.
pub open spec fn severity_marker(s: Seq<char>) -> Seq<char> {
    if s == "CRITICAL"@ || s == "HIGH"@ {
        "🔴"@
    } else if s == "MEDIUM"@ {
        "🟡"@
    } else {
        "🟢"@
    }
}

/// Line of one vulnerability under a node.
pub open spec fn vuln_line(pad: Seq<char>, v: VulnSummary) -> Seq<char> {
    pad + "   ⚠️  "@ + severity_marker(v.severity@) + " "@ + v.cve_id@ + " "@ + (match v.fixed_version {
        Some(f) => " → fix: v"@ + f@,
        None => Seq::empty(),
    }) + "\n"@
}

/// Lines of a node's vulnerabilities, in order.
pub open spec fn vuln_lines(pad: Seq<char>, vs: Seq<VulnSummary>) -> Seq<char>
    decreases vs.len(),
{
    if vs.len() == 0 {
        Seq::empty()
    } else {
        vuln_lines(pad, vs.drop_last()) + vuln_line(pad, vs.last())
    }
}

/// Continuation prefix under a node.
pub open spec fn node_pad(is_last: bool) -> Seq<char> {
    if is_last {
        "    "@
    } else {
        "│   "@
    }
}

/// The first two lines of a node: its artifact and version, and its
/// license.
pub open spec fn node_head_lines(n: TreeNode, is_last: bool) -> Seq<char> {
    let connector = if is_last {
        "└── "@
    } else {
        "├── "@
    };
    connector + n.artifact@ + n.version@ + " v"@ + "\n"@ + node_pad(is_last) + "   📄 "@
        + category_marker(n.license_category@) + " "@ + n.license@ + " ("@ + n.license_category@
        + ")\n"@
}

/// The vulnerability lines of a node.
pub open spec fn node_vuln_lines(n: TreeNode, is_last: bool) -> Seq<char> {
    if n.vulnerabilities@.len() == 0 {
        node_pad(is_last) + "   🛡️  No known vulnerabilities\n"@
    } else {
        vuln_lines(node_pad(is_last), n.vulnerabilities@)
    }
}

/// Text of one node; `is_last` tells whether it is the final node.
pub open spec fn node_block(n: TreeNode, is_last: bool) -> Seq<char> {
    node_head_lines(n, is_last) + node_vuln_lines(n, is_last) + (if is_last {
        Seq::empty()
    } else {
        node_pad(is_last) + "\n"@
    })
}

/// Text of the nodes `nodes`, of which the final one of `all` (of length
/// `total`) is the last.
pub open spec fn blocks(nodes: Seq<TreeNode>, total: nat) -> Seq<char>
    decreases nodes.len(),
{
    if nodes.len() == 0 {
        Seq::empty()
    } else {
        blocks(nodes.drop_last(), total) + node_block(nodes.last(), nodes.len() == total)
    }
}

/// Number of vulnerabilities over all nodes.
pub open spec fn total_vulns(nodes: Seq<TreeNode>) -> nat
    decreases nodes.len(),
{
    if nodes.len() == 0 {
        0
    } else {
        total_vulns(nodes.drop_last()) + nodes.last().vulnerabilities@.len()
    }
}

/// Categories of the nodes, in order.
pub open spec fn categories(nodes: Seq<TreeNode>) -> Seq<Seq<char>> {
    nodes.map_values(|n: TreeNode| n.license_category@)
}

/// Lines of the license distribution.
pub open spec fn distribution_lines(d: Seq<(Seq<char>, nat)>) -> Seq<char>
    decreases d.len(),
{
    if d.len() == 0 {
        Seq::empty()
    } else {
        distribution_lines(d.drop_last()) + "      "@ + d.last().0 + ": "@ + decimal(d.last().1)
            + "\n"@
    }
}

/// The rendered detailed tree: the nodes, then a summary with the number
/// of dependencies, of vulnerabilities, and the number of dependencies per
/// license category (categories in order of first appearance).
pub open spec fn verbose_text(nodes: Seq<TreeNode>) -> Seq<char> {
    let vc = total_vulns(nodes);
    "📦 Root\n"@ + blocks(nodes, nodes.len()) + "\n📊 Summary: "@ + decimal(nodes.len())
        + " dependencies\n"@ + "   🔍 Vulnerabilities: "@ + (if vc > 0 {
        decimal(vc) + " found"@
    } else {
        "None"@
    }) + "\n"@ + (if nodes.len() > 0 {
        "   📄 License distribution:\n"@ + distribution_lines(tally(categories(nodes)))
    } else {
        Seq::empty()
    })
}

/// Appends the first two lines of a node.
fn push_node_head(out: &mut String, n: &TreeNode, is_last: bool, pad: &str)
    requires
        pad@ == node_pad(is_last),
    ensures
        final(out)@ == old(out)@ + node_head_lines(*n, is_last),
{
    let ghost o0 = out@;
    let connector = if is_last {
        "└── "
    } else {
        "├── "
    };
    push_str(out, connector);
    push_str(out, n.artifact.as_str());
    push_str(out, n.version.as_str());
    push_str(out, " v");
    push_str(out, "\n");
    let ghost line1 = out@;
    assert(line1 =~= o0 + (connector@ + n.artifact@ + n.version@ + " v"@ + "\n"@));
    let c = n.license_category.as_str();
    let marker = if str_eq(c, "Permissive") {
        "🟢"
    } else if str_eq(c, "Weak Copyleft") {
        "🟡"
    } else if str_eq(c, "Strong Copyleft") {
        "🔴"
    } else {
        "⚪"
    };
    push_str(out, pad);
    push_str(out, "   📄 ");
    push_str(out, marker);
    push_str(out, " ");
    push_str(out, n.license.as_str());
    push_str(out, " (");
    push_str(out, c);
    push_str(out, ")\n");
    assert(out@ =~= line1 + (pad@ + "   📄 "@ + marker@ + " "@ + n.license@ + " ("@ + c@ + ")\n"@));
    assert(marker@ == category_marker(n.license_category@));
    assert(out@ =~= o0 + node_head_lines(*n, is_last));
}

/// Appends one vulnerability line.
fn push_vuln_line(out: &mut String, pad: &str, v: &VulnSummary)
    ensures
        final(out)@ == old(out)@ + vuln_line(pad@, *v),
{
    let ghost before = out@;
    let s = v.severity.as_str();
    let sm = if str_eq(s, "CRITICAL") || str_eq(s, "HIGH") {
        "🔴"
    } else if str_eq(s, "MEDIUM") {
        "🟡"
    } else {
        "🟢"
    };
    push_str(out, pad);
    push_str(out, "   ⚠️  ");
    push_str(out, sm);
    push_str(out, " ");
    push_str(out, v.cve_id.as_str());
    push_str(out, " ");
    match &v.fixed_version {
        Some(f) => {
            push_str(out, " → fix: v");
            push_str(out, f.as_str());
        },
        None => {},
    }
    push_str(out, "\n");
    assert(out@ =~= before + vuln_line(pad@, *v));
}

/// Appends the vulnerability lines of a node.
fn push_vuln_lines(out: &mut String, pad: &str, vs: &Vec<VulnSummary>)
    ensures
        final(out)@ == old(out)@ + vuln_lines(pad@, vs@),
{
    let ghost o1 = out@;
    let mut k: usize = 0;
    assert(vuln_lines(pad@, vs@.take(0)) =~= Seq::<char>::empty()) by {
        assert(vs@.take(0).len() == 0);
    }
    assert(out@ =~= o1 + vuln_lines(pad@, vs@.take(0)));
    while k < vs.len()
        invariant
            k <= vs@.len(),
            out@ == o1 + vuln_lines(pad@, vs@.take(k as int)),
        decreases vs@.len() - k,
    {
        assert(vs@.take(k + 1).drop_last() =~= vs@.take(k as int));
        assert(vs@.take(k + 1).last() == vs@[k as int]);
        push_vuln_line(out, pad, &vs[k]);
        assert(out@ =~= o1 + vuln_lines(pad@, vs@.take(k + 1)));
        k += 1;
    }
    assert(vs@.take(k as int) =~= vs@);
}

/// Appends one node's text.
fn push_node_block(out: &mut String, n: &TreeNode, is_last: bool)
    ensures
        final(out)@ == old(out)@ + node_block(*n, is_last),
{
    let ghost o0 = out@;
    let pad = if is_last {
        "    "
    } else {
        "│   "
    };
    push_node_head(out, n, is_last, pad);
    let ghost o1 = out@;
    if n.vulnerabilities.len() == 0 {
        push_str(out, pad);
        push_str(out, "   🛡️  No known vulnerabilities\n");
    } else {
        push_vuln_lines(out, pad, &n.vulnerabilities);
    }
    assert(out@ =~= o1 + node_vuln_lines(*n, is_last));
    let ghost o2 = out@;
    if !is_last {
        push_str(out, pad);
        push_str(out, "\n");
    }
    assert(out@ =~= o0 + node_block(*n, is_last));
}

/// Renders the detailed tree for a terminal.
pub fn render_verbose(report: &TreeReport) -> (r: String)
    requires
        total_vulns(report.nodes@) <= usize::MAX,
    ensures
        r@ == verbose_text(report.nodes@),
{
    let ghost s = report.nodes@;
    let mut output = owned("📦 Root\n");
    let count = report.nodes.len();
    let mut vuln_count: usize = 0;
    let mut cats: Vec<String> = Vec::new();
    let mut i: usize = 0;
    assert(s.take(0) =~= Seq::<TreeNode>::empty());
    while i < count
        invariant
            s == report.nodes@,
            count == s.len(),
            i <= count,
            output@ == "📦 Root\n"@ + blocks(s.take(i as int), count as nat),
            vuln_count == total_vulns(s.take(i as int)),
            total_vulns(s) <= usize::MAX,
            views(cats@) == categories(s.take(i as int)),
        decreases count - i,
    {
        assert(s.take(i + 1).drop_last() =~= s.take(i as int));
        assert(s.take(i + 1).last() == s[i as int]);
        proof {
            lemma_total_vulns_prefix(s, i as int + 1);
        }
        let n = &report.nodes[i];
        push_node_block(&mut output, n, i == count - 1);
        vuln_count = vuln_count + n.vulnerabilities.len();
        let ghost c0 = views(cats@);
        cats.push(n.license_category.clone());
        assert(views(cats@) =~= c0.push(n.license_category@));
        assert(categories(s.take(i + 1)) =~= categories(s.take(i as int)).push(n.license_category@));
        i += 1;
    }
    assert(s.take(count as int) =~= s);
    push_str(&mut output, "\n📊 Summary: ");
    let d = usize_to_decimal(count);
    push_str(&mut output, d.as_str());
    push_str(&mut output, " dependencies\n");
    push_str(&mut output, "   🔍 Vulnerabilities: ");
    if vuln_count > 0 {
        let vd = usize_to_decimal(vuln_count);
        push_str(&mut output, vd.as_str());
        push_str(&mut output, " found");
    } else {
        push_str(&mut output, "None");
    }
    push_str(&mut output, "\n");
    let ghost o2 = output@;
    if count > 0 {
        push_str(&mut output, "   📄 License distribution:\n");
        let dist = tally_strings(&cats);
        let ghost dv = count_views(dist@);
        let ghost o3 = output@;
        let mut k: usize = 0;
        while k < dist.len()
            invariant
                k <= dist@.len(),
                dv == count_views(dist@),
                dv.len() == dist@.len(),
                output@ == o3 + distribution_lines(dv.take(k as int)),
            decreases dist@.len() - k,
        {
            assert(dv.take(k + 1).drop_last() =~= dv.take(k as int));
            assert(dv.take(k + 1).last() == dv[k as int]);
            push_str(&mut output, "      ");
            push_str(&mut output, dist[k].0.as_str());
            push_str(&mut output, ": ");
            let cd = usize_to_decimal(dist[k].1);
            push_str(&mut output, cd.as_str());
            push_str(&mut output, "\n");
            k += 1;
        }
        assert(dv.take(dist@.len() as int) =~= dv);
    }
    output
}

proof fn lemma_total_vulns_prefix(s: Seq<TreeNode>, i: int)
    requires
        0 <= i <= s.len(),
    ensures
        total_vulns(s.take(i)) <= total_vulns(s),
    decreases s.len(),
{
    if i < s.len() {
        assert(s.drop_last().take(i) =~= s.take(i));
        lemma_total_vulns_prefix(s.drop_last(), i);
    } else {
        assert(s.take(i) =~= s);
    }
}

// ───────────────────────────── building ─────────────────────────────

/// The license info reported for `coord` (`group:artifact`): the last one
/// of that coordinate.
pub open spec fn license_for(infos: Seq<LicenseInfo>, coord: Seq<char>) -> Option<LicenseInfo>
    decreases infos.len(),
{
    if infos.len() == 0 {
        None
    } else if infos.last().group@.push(':') + infos.last().artifact@ == coord {
        Some(infos.last())
    } else {
        license_for(infos.drop_last(), coord)
    }
}

/// Summaries of the vulnerabilities of `coord`, in order.
pub open spec fn vulns_for(vulns: Seq<Vulnerability>, coord: Seq<char>) -> Seq<
    (Seq<char>, Seq<char>, Option<Seq<char>>),
>
    decreases vulns.len(),
{
    if vulns.len() == 0 {
        Seq::empty()
    } else if vulns.last().group@.push(':') + vulns.last().artifact@ == coord {
        vulns_for(vulns.drop_last(), coord).push(
            (
                vulns.last().cve_id@,
                severity_name(vulns.last().severity),
                match vulns.last().fixed_version {
                    Some(f) => Some(f@),
                    None => None,
                },
            ),
        )
    } else {
        vulns_for(vulns.drop_last(), coord)
    }
}

/// The node expected for dependency `coord` at `version`, given the parts
/// of the coordinate.
pub open spec fn expected_node(
    coord: Seq<char>,
    version: Seq<char>,
    infos: Seq<LicenseInfo>,
    vulns: Seq<Vulnerability>,
) -> (Seq<char>, Seq<char>, Seq<char>, Seq<char>, Seq<char>, Seq<char>, Seq<(Seq<char>, Seq<char>, Option<Seq<char>>)>) {
    let parts = split(coord, ':');
    (
        parts[0].push(':') + parts[1],
        parts[0],
        parts[1],
        version,
        match license_for(infos, coord) {
            Some(i) => i.license@,
            None => "Unknown"@,
        },
        match license_for(infos, coord) {
            Some(i) => category_name(i.category),
            None => "Unknown"@,
        },
        vulns_for(vulns, coord),
    )
}

/// Expected nodes for the dependencies whose coordinate has exactly two
/// parts, in order.
pub open spec fn expected_nodes(
    deps: Seq<(String, String)>,
    infos: Seq<LicenseInfo>,
    vulns: Seq<Vulnerability>,
) -> Seq<(Seq<char>, Seq<char>, Seq<char>, Seq<char>, Seq<char>, Seq<char>, Seq<(Seq<char>, Seq<char>, Option<Seq<char>>)>)>
    decreases deps.len(),
{
    if deps.len() == 0 {
        Seq::empty()
    } else {
        let rest = expected_nodes(deps.drop_last(), infos, vulns);
        if split(deps.last().0@, ':').len() == 2 {
            rest.push(expected_node(deps.last().0@, deps.last().1@, infos, vulns))
        } else {
            rest
        }
    }
}

/// License name and category name reported for `coord`.
fn lookup_license(infos: &[LicenseInfo], coord: &str) -> (r: (String, String))
    ensures
        r.0@ == match license_for(infos@, coord@) {
            Some(i) => i.license@,
            None => "Unknown"@,
        },
        r.1@ == match license_for(infos@, coord@) {
            Some(i) => category_name(i.category),
            None => "Unknown"@,
        },
{
    let mut i = infos.len();
    assert(infos@.take(i as int) =~= infos@);
    while i > 0
        invariant
            i <= infos@.len(),
            license_for(infos@, coord@) == license_for(infos@.take(i as int), coord@),
        decreases i,
    {
        assert(infos@.take(i as int).drop_last() =~= infos@.take(i - 1));
        assert(infos@.take(i as int).last() == infos@[i - 1]);
        let info = &infos[i - 1];
        let key = join_pair(info.group.as_str(), ':', info.artifact.as_str());
        if str_eq(key.as_str(), coord) {
            return (info.license.clone(), owned(info.category.display()));
        }
        i -= 1;
    }
    (owned("Unknown"), owned("Unknown"))
}

/// Summaries of the vulnerabilities of `coord`.
fn lookup_vulns(vulns: &[Vulnerability], coord: &str) -> (r: Vec<VulnSummary>)
    ensures
        vulns_view(r@) == vulns_for(vulns@, coord@),
{
    let mut out: Vec<VulnSummary> = Vec::new();
    let mut i: usize = 0;
    assert(vulns@.take(0) =~= Seq::<Vulnerability>::empty());
    while i < vulns.len()
        invariant
            i <= vulns@.len(),
            vulns_view(out@) == vulns_for(vulns@.take(i as int), coord@),
        decreases vulns@.len() - i,
    {
        assert(vulns@.take(i + 1).drop_last() =~= vulns@.take(i as int));
        assert(vulns@.take(i + 1).last() == vulns@[i as int]);
        let v = &vulns[i];
        let key = join_pair(v.group.as_str(), ':', v.artifact.as_str());
        if str_eq(key.as_str(), coord) {
            let ghost o0 = out@;
            out.push(
                VulnSummary {
                    cve_id: v.cve_id.clone(),
                    severity: owned(v.severity.display()),
                    fixed_version: match &v.fixed_version {
                        Some(f) => Some(f.clone()),
                        None => None,
                    },
                },
            );
            assert(vulns_view(out@) =~= vulns_view(o0).push(
                (
                    v.cve_id@,
                    severity_name(v.severity),
                    match v.fixed_version {
                        Some(f) => Some(f@),
                        None => None,
                    },
                ),
            ));
        }
        i += 1;
    }
    assert(vulns@.take(vulns@.len() as int) =~= vulns@);
    out
}

/// The detailed tree of the locked dependencies (coordinate, version),
/// given their license infos and known vulnerabilities: one node per
/// dependency whose coordinate is `group:artifact`.
pub fn tree_verbose(
    dependencies: &Vec<(String, String)>,
    licenses: &[LicenseInfo],
    vulns: &[Vulnerability],
) -> (r: Result<TreeReport>)
    ensures
        r matches Ok(rep) && rep.nodes@.map_values(|n: TreeNode| node_view(n)) == expected_nodes(
            dependencies@,
            licenses@,
            vulns@,
        ),
{
    let ghost s = dependencies@;
    let mut nodes: Vec<TreeNode> = Vec::new();
    let mut i: usize = 0;
    assert(s.take(0) =~= Seq::<(String, String)>::empty());
    while i < dependencies.len()
        invariant
            s == dependencies@,
            i <= s.len(),
            nodes@.map_values(|n: TreeNode| node_view(n)) == expected_nodes(
                s.take(i as int),
                licenses@,
                vulns@,
            ),
        decreases s.len() - i,
    {
        assert(s.take(i + 1).drop_last() =~= s.take(i as int));
        assert(s.take(i + 1).last() == s[i as int]);
        let coord = dependencies[i].0.as_str();
        let parts = str_split(coord, ':');
        proof {
            assert(views(parts@).len() == parts@.len());
        }
        if parts.len() == 2 {
            proof {
                assert(views(parts@)[0] == parts@[0]@);
                assert(views(parts@)[1] == parts@[1]@);
            }
            let (license, category) = lookup_license(licenses, coord);
            let vs = lookup_vulns(vulns, coord);
            let ghost n0 = nodes@;
            nodes.push(
                TreeNode {
                    name: join_pair(parts[0].as_str(), ':', parts[1].as_str()),
                    group: parts[0].clone(),
                    artifact: parts[1].clone(),
                    version: dependencies[i].1.clone(),
                    license,
                    license_category: category,
                    vulnerabilities: vs,
                },
            );
            assert(nodes@.map_values(|n: TreeNode| node_view(n)) =~= n0.map_values(
                |n: TreeNode| node_view(n),
            ).push(expected_node(coord@, dependencies@[i as int].1@, licenses@, vulns@)));
        }
        i += 1;
    }
    assert(s.take(s.len() as int) =~= s);
    Ok(TreeReport { nodes })
}

} // verus!
