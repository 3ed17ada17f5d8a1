//! The project's dependency report: a summary of outdated dependencies,
//! vulnerabilities and licenses, and its text rendering.

use vstd::prelude::*;
use crate::audit::{Vulnerability, severity_name};
use crate::error::Result;
use crate::license::{LicenseInfo, LicenseCategory, count_category, spdx_ids};
use crate::num::{decimal, usize_to_decimal};
use crate::outdated::OutdatedDep;
use crate::tally::{tally, tally_strings, count_views};
use crate::text::{owned, push_str, push_char};
use crate::tree::DependencyTree;

verus! {

/// Counts at the head of the report.
#[derive(Debug, Clone)]
pub struct ReportSummary {
    pub total_dependencies: usize,
    pub outdated_count: usize,
    pub vulnerability_count: usize,
    pub license_issues: usize,
}

/// The dependency report.
#[derive(Debug)]
pub struct DependencyReport {
    pub summary: ReportSummary,
    pub outdated: Vec<OutdatedDep>,
    pub vulnerabilities: Vec<Vulnerability>,
    pub licenses: Vec<LicenseInfo>,
    pub tree: DependencyTree,
}

/// Builds the report from what was found: the summary counts the tree's
/// direct dependencies, the outdated ones, the vulnerabilities, and the
/// licenses of unknown category.
pub fn generate_report(
    outdated: Vec<OutdatedDep>,
    vulnerabilities: Vec<Vulnerability>,
    licenses: Vec<LicenseInfo>,
    tree: DependencyTree,
) -> (r: Result<DependencyReport>)
    ensures
        r is Ok,
        r->Ok_0.summary.total_dependencies == tree.root.children@.len(),
        r->Ok_0.summary.outdated_count == outdated@.len(),
        r->Ok_0.summary.vulnerability_count == vulnerabilities@.len(),
        r->Ok_0.summary.license_issues == count_category(licenses@, LicenseCategory::Unknown),
        r->Ok_0.outdated@ == outdated@,
        r->Ok_0.vulnerabilities@ == vulnerabilities@,
        r->Ok_0.licenses@ == licenses@,
        r->Ok_0.tree == tree,
{
    let ghost s = licenses@;
    let mut issues: usize = 0;
    let mut i: usize = 0;
    assert(s.take(0) =~= Seq::<LicenseInfo>::empty());
    while i < licenses.len()
        invariant
            s == licenses@,
            i <= s.len(),
            issues == count_category(s.take(i as int), LicenseCategory::Unknown),
            issues <= i,
        decreases s.len() - i,
    {
        assert(s.take(i + 1).drop_last() =~= s.take(i as int));
        assert(s.take(i + 1).last() == s[i as int]);
        if licenses[i].category == LicenseCategory::Unknown {
            issues += 1;
        }
        i += 1;
    }
    assert(s.take(s.len() as int) =~= s);
    let summary = ReportSummary {
        total_dependencies: tree.root.children.len(),
        outdated_count: outdated.len(),
        vulnerability_count: vulnerabilities.len(),
        license_issues: issues,
    };
    Ok(DependencyReport { summary, outdated, vulnerabilities, licenses, tree })
}

/// Horizontal rule under a section title.
pub open spec fn section_rule() -> Seq<char> {
    "───────────────────────────────────────\n"@
}

/// Lines of the outdated dependencies.
pub open spec fn outdated_lines(ds: Seq<OutdatedDep>) -> Seq<char>
    decreases ds.len(),
{
    if ds.len() == 0 {
        Seq::empty()
    } else {
        let d = ds.last();
        outdated_lines(ds.drop_last()) + "  "@ + d.group@ + ":"@ + d.artifact@ + ": "@ + d.current@
            + " → "@ + d.latest@ + "\n"@
    }
}

/// Lines of the vulnerabilities.
pub open spec fn vuln_lines(vs: Seq<Vulnerability>) -> Seq<char>
    decreases vs.len(),
{
    if vs.len() == 0 {
        Seq::empty()
    } else {
        let v = vs.last();
        vuln_lines(vs.drop_last()) + "  ["@ + severity_name(v.severity) + "] "@ + v.group@ + ":"@
            + v.artifact@ + " ("@ + v.cve_id@ + ")\n"@
    }
}

/// Lines of the license distribution.
pub open spec fn license_lines(d: Seq<(Seq<char>, nat)>) -> Seq<char>
    decreases d.len(),
{
    if d.len() == 0 {
        Seq::empty()
    } else {
        license_lines(d.drop_last()) + "  "@ + d.last().0 + ": "@ + decimal(d.last().1) + " 个\n"@
    }
}

/// The rendered report: title, summary, then the sections that have
/// entries (outdated dependencies, vulnerabilities, license distribution
/// by SPDX id in order of first appearance).
pub open spec fn report_text(r: DependencyReport) -> Seq<char> {
    report_head(r) + outdated_part(r) + vuln_part(r) + license_part(r)
}

/// The title and the summary.
pub open spec fn report_head(r: DependencyReport) -> Seq<char> {
    "📊 项目依赖分析报告\n"@ + "═══════════════════════════════════════\n\n"@ + "📋 摘要\n"@
        + "  总依赖数: "@ + decimal(r.summary.total_dependencies as nat) + "\n"@ + "  可更新: "@
        + decimal(r.summary.outdated_count as nat) + "\n"@ + "  安全漏洞: "@ + decimal(
        r.summary.vulnerability_count as nat,
    ) + "\n"@ + "  许可证问题: "@ + decimal(r.summary.license_issues as nat) + "\n\n"@
}

/// The section of dependencies that can be updated, when there are any.
pub open spec fn outdated_part(r: DependencyReport) -> Seq<char> {
    if r.outdated@.len() > 0 {
        "📦 可更新依赖\n"@ + section_rule() + outdated_lines(r.outdated@) + "\n"@
    } else {
        Seq::empty()
    }
}

/// The section of vulnerabilities, when there are any.
pub open spec fn vuln_part(r: DependencyReport) -> Seq<char> {
    if r.vulnerabilities@.len() > 0 {
        "🔒 安全漏洞\n"@ + section_rule() + vuln_lines(r.vulnerabilities@) + "\n"@
    } else {
        Seq::empty()
    }
}

/// The section of license counts, when there are licenses.
pub open spec fn license_part(r: DependencyReport) -> Seq<char> {
    if r.licenses@.len() > 0 {
        "📜 许可证分布\n"@ + section_rule() + license_lines(tally(spdx_ids(r.licenses@))) + "\n"@
    } else {
        Seq::empty()
    }
}

/// Appends the summary lines.
fn push_summary(out: &mut String, s: &ReportSummary)
    ensures
        final(out)@ == old(out)@ + "  总依赖数: "@ + decimal(s.total_dependencies as nat) + "\n"@
            + "  可更新: "@ + decimal(s.outdated_count as nat) + "\n"@ + "  安全漏洞: "@ + decimal(
            s.vulnerability_count as nat,
        ) + "\n"@ + "  许可证问题: "@ + decimal(s.license_issues as nat) + "\n\n"@,
{
    let ghost o0 = out@;
    push_str(out, "  总依赖数: ");
    push_str(out, usize_to_decimal(s.total_dependencies).as_str());
    push_str(out, "\n");
    push_str(out, "  可更新: ");
    push_str(out, usize_to_decimal(s.outdated_count).as_str());
    push_str(out, "\n");
    push_str(out, "  安全漏洞: ");
    push_str(out, usize_to_decimal(s.vulnerability_count).as_str());
    push_str(out, "\n");
    push_str(out, "  许可证问题: ");
    push_str(out, usize_to_decimal(s.license_issues).as_str());
    push_str(out, "\n\n");
}

/// Appends the outdated section.
fn push_outdated(out: &mut String, ds: &Vec<OutdatedDep>)
    ensures
        final(out)@ == old(out)@ + outdated_lines(ds@),
{
    let ghost o0 = out@;
    let mut i: usize = 0;
    assert(ds@.take(0) =~= Seq::<OutdatedDep>::empty());
    while i < ds.len()
        invariant
            i <= ds@.len(),
            out@ == o0 + outdated_lines(ds@.take(i as int)),
        decreases ds@.len() - i,
    {
        assert(ds@.take(i + 1).drop_last() =~= ds@.take(i as int));
        assert(ds@.take(i + 1).last() == ds@[i as int]);
        let d = &ds[i];
        push_str(out, "  ");
        push_str(out, d.group.as_str());
        push_str(out, ":");
        push_str(out, d.artifact.as_str());
        push_str(out, ": ");
        push_str(out, d.current.as_str());
        push_str(out, " → ");
        push_str(out, d.latest.as_str());
        push_str(out, "\n");
        i += 1;
    }
    assert(ds@.take(i as int) =~= ds@);
}

/// Appends the vulnerability section lines.
fn push_vulns(out: &mut String, vs: &Vec<Vulnerability>)
    ensures
        final(out)@ == old(out)@ + vuln_lines(vs@),
{
    let ghost o0 = out@;
    let mut i: usize = 0;
    assert(vs@.take(0) =~= Seq::<Vulnerability>::empty());
    while i < vs.len()
        invariant
            i <= vs@.len(),
            out@ == o0 + vuln_lines(vs@.take(i as int)),
        decreases vs@.len() - i,
    {
        assert(vs@.take(i + 1).drop_last() =~= vs@.take(i as int));
        assert(vs@.take(i + 1).last() == vs@[i as int]);
        let v = &vs[i];
        push_str(out, "  [");
        push_str(out, v.severity.display());
        push_str(out, "] ");
        push_str(out, v.group.as_str());
        push_str(out, ":");
        push_str(out, v.artifact.as_str());
        push_str(out, " (");
        push_str(out, v.cve_id.as_str());
        push_str(out, ")\n");
        i += 1;
    }
    assert(vs@.take(i as int) =~= vs@);
}

/// Appends the license distribution lines.
fn push_licenses(out: &mut String, licenses: &Vec<LicenseInfo>)
    ensures
        final(out)@ == old(out)@ + license_lines(tally(spdx_ids(licenses@))),
{
    let ghost s = licenses@;
    let mut ids: Vec<String> = Vec::new();
    let mut i: usize = 0;
    while i < licenses.len()
        invariant
            s == licenses@,
            i <= s.len(),
            ids@.map_values(|x: String| x@) == spdx_ids(s.take(i as int)),
        decreases s.len() - i,
    {
        let ghost i0 = ids@;
        ids.push(licenses[i].spdx_id.clone());
        assert(ids@.map_values(|x: String| x@) =~= i0.map_values(|x: String| x@).push(
            s[i as int].spdx_id@,
        ));
        assert(spdx_ids(s.take(i + 1)) =~= spdx_ids(s.take(i as int)).push(s[i as int].spdx_id@));
        i += 1;
    }
    assert(s.take(s.len() as int) =~= s);
    let dist = tally_strings(&ids);
    let ghost dv = count_views(dist@);
    let ghost o0 = out@;
    let mut k: usize = 0;
    assert(dv.take(0) =~= Seq::<(Seq<char>, nat)>::empty());
    while k < dist.len()
        invariant
            k <= dist@.len(),
            dv == count_views(dist@),
            dv.len() == dist@.len(),
            out@ == o0 + license_lines(dv.take(k as int)),
        decreases dist@.len() - k,
    {
        assert(dv.take(k + 1).drop_last() =~= dv.take(k as int));
        assert(dv.take(k + 1).last() == dv[k as int]);
        push_str(out, "  ");
        push_str(out, dist[k].0.as_str());
        push_str(out, ": ");
        push_str(out, usize_to_decimal(dist[k].1).as_str());
        push_str(out, " 个\n");
        k += 1;
    }
    assert(dv.take(dist@.len() as int) =~= dv);
}

fn push_head(out: &mut String, report: &DependencyReport)
    ensures
        final(out)@ == old(out)@ + report_head(*report),
{
    let ghost o0 = out@;
    push_str(out, "📊 项目依赖分析报告\n");
    push_str(out, "═══════════════════════════════════════\n\n");
    push_str(out, "📋 摘要\n");
    push_summary(out, &report.summary);
    assert(out@ =~= o0 + report_head(*report));
}

fn push_outdated_part(out: &mut String, report: &DependencyReport)
    ensures
        final(out)@ == old(out)@ + outdated_part(*report),
{
    let ghost o0 = out@;
    if report.outdated.len() > 0 {
        push_str(out, "📦 可更新依赖\n");
        push_str(out, "───────────────────────────────────────\n");
        push_outdated(out, &report.outdated);
        push_str(out, "\n");
        assert(out@ =~= o0 + outdated_part(*report));
    } else {
        assert(out@ =~= o0 + outdated_part(*report));
    }
}

fn push_vuln_part(out: &mut String, report: &DependencyReport)
    ensures
        final(out)@ == old(out)@ + vuln_part(*report),
{
    let ghost o0 = out@;
    if report.vulnerabilities.len() > 0 {
        push_str(out, "🔒 安全漏洞\n");
        push_str(out, "───────────────────────────────────────\n");
        push_vulns(out, &report.vulnerabilities);
        push_str(out, "\n");
        assert(out@ =~= o0 + vuln_part(*report));
    } else {
        assert(out@ =~= o0 + vuln_part(*report));
    }
}

fn push_license_part(out: &mut String, report: &DependencyReport)
    ensures
        final(out)@ == old(out)@ + license_part(*report),
{
    let ghost o0 = out@;
    if report.licenses.len() > 0 {
        push_str(out, "📜 许可证分布\n");
        push_str(out, "───────────────────────────────────────\n");
        push_licenses(out, &report.licenses);
        push_str(out, "\n");
        assert(out@ =~= o0 + license_part(*report));
    } else {
        assert(out@ =~= o0 + license_part(*report));
    }
}

/// Renders the report as text.
pub fn render_report(report: &DependencyReport) -> (r: String)
    ensures
        r@ == report_text(*report),
{
    let mut output = String::new();
    push_head(&mut output, report);
    push_outdated_part(&mut output, report);
    push_vuln_part(&mut output, report);
    push_license_part(&mut output, report);
    assert(output@ =~= report_text(*report));
    output
}

} // verus!
