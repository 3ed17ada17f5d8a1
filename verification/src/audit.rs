//! Security audit of dependencies: severities, vulnerabilities from the
//! OSV database, fix suggestions and the audit report.

use vstd::prelude::*;
use vstd::std_specs::cmp::PartialOrdSpecImpl;
use crate::text::{uppercase, to_uppercase, str_eq, owned, lex_less, str_lt, push_str};

verus! {

/// How serious a vulnerability is.
#[derive(Debug, Clone, Copy, PartialEq, Eq, Structural, Ord)]
pub enum Severity {
    Low,
    Medium,
    High,
    Critical,
}

/// Rank of a severity: `Low` lowest, `Critical` highest.
pub open spec fn rank(s: Severity) -> int {
    match s {
        Severity::Low => 0,
        Severity::Medium => 1,
        Severity::High => 2,
        Severity::Critical => 3,
    }
}

/// Order of severities by rank.
pub open spec fn severity_order(a: Severity, b: Severity) -> Option<std::cmp::Ordering> {
    if rank(a) < rank(b) {
        Some(std::cmp::Ordering::Less)
    } else if rank(a) == rank(b) {
        Some(std::cmp::Ordering::Equal)
    } else {
        Some(std::cmp::Ordering::Greater)
    }
}

impl PartialOrd for Severity {
    fn partial_cmp(&self, other: &Self) -> (r: Option<std::cmp::Ordering>) {
        let a = self.priority();
        let b = other.priority();
        if a < b {
            Some(std::cmp::Ordering::Less)
        } else if a == b {
            Some(std::cmp::Ordering::Equal)
        } else {
            Some(std::cmp::Ordering::Greater)
        }
    }
}

impl PartialOrdSpecImpl for Severity {
    open spec fn obeys_partial_cmp_spec() -> bool {
        true
    }

    open spec fn partial_cmp_spec(&self, other: &Self) -> Option<std::cmp::Ordering> {
        severity_order(*self, *other)
    }
}

/// Terminal colour escape of a severity.
pub open spec fn severity_color(s: Severity) -> Seq<char> {
    match s {
        Severity::Critical | Severity::High => "\x1b[31m"@,
        Severity::Medium => "\x1b[33m"@,
        Severity::Low => "\x1b[32m"@,
    }
}

/// Upper-case name of a severity.
pub open spec fn severity_name(s: Severity) -> Seq<char> {
    match s {
        Severity::Critical => "CRITICAL"@,
        Severity::High => "HIGH"@,
        Severity::Medium => "MEDIUM"@,
        Severity::Low => "LOW"@,
    }
}

impl Severity {
    /// Rank of the severity.
    pub fn priority(&self) -> (r: u8)
        ensures
            r == rank(*self),
    {
        match self {
            Severity::Low => 0,
            Severity::Medium => 1,
            Severity::High => 2,
            Severity::Critical => 3,
        }
    }

    /// Terminal colour escape: red for high and critical, yellow for
    /// medium, green for low.
    pub fn color(&self) -> (r: &'static str)
        ensures
            r@ == severity_color(*self),
    {
        match self {
            Severity::Critical | Severity::High => "\x1b[31m",
            Severity::Medium => "\x1b[33m",
            Severity::Low => "\x1b[32m",
        }
    }

    /// Upper-case name of the severity.
    pub fn display(&self) -> (r: &'static str)
        ensures
            r@ == severity_name(*self),
    {
        match self {
            Severity::Critical => "CRITICAL",
            Severity::High => "HIGH",
            Severity::Medium => "MEDIUM",
            Severity::Low => "LOW",
        }
    }

    /// The name of the severity as an owned string (what `Display` shows).
    pub fn to_string(&self) -> (r: String)
        ensures
            r@ == severity_name(*self),
    {
        owned(self.display())
    }
}

/// A known vulnerability of one dependency.
#[derive(Debug, Clone)]
pub struct Vulnerability {
    pub group: String,
    pub artifact: String,
    pub current_version: String,
    pub cve_id: String,
    pub severity: Severity,
    pub description: String,
    pub fixed_version: Option<String>,
}

/// What the audit reads of one OSV vulnerability record: its id, its
/// summary, the score of its first severity entry, and the `fixed` field
/// of each version entry of its first `affected` entry (`None` where the
/// record has no such list).
#[derive(Debug, Clone)]
pub struct OsvEntry {
    pub id: Option<String>,
    pub summary: Option<String>,
    pub severity_score: Option<String>,
    pub fixed: Option<Vec<Option<String>>>,
}

/// Severity named by an upper-case score; anything else is `Medium`.
pub open spec fn severity_named(u: Seq<char>) -> Severity {
    if u == "CRITICAL"@ {
        Severity::Critical
    } else if u == "HIGH"@ {
        Severity::High
    } else if u == "MEDIUM"@ {
        Severity::Medium
    } else if u == "LOW"@ {
        Severity::Low
    } else {
        Severity::Medium
    }
}

/// Severity of an OSV score (`MEDIUM` where there is none), compared
/// without case.
pub open spec fn severity_of_score(score: Option<Seq<char>>) -> Severity {
    severity_named(
        uppercase(
            match score {
                Some(s) => s,
                None => "MEDIUM"@,
            },
        ),
    )
}

/// Severity of an OSV severity score.
pub fn extract_severity(score: Option<&str>) -> (r: Severity)
    ensures
        r == severity_of_score(
            match score {
                Some(s) => Some(s@),
                None => None,
            },
        ),
{
    let s = match score {
        Some(x) => x,
        None => "MEDIUM",
    };
    let u = to_uppercase(s);
    severity_of_uppercase(u.as_str())
}

/// The severity an upper-cased score names; anything else is `Medium`.
pub fn severity_of_uppercase(u: &str) -> (r: Severity)
    ensures
        r == severity_named(u@),
{
    if str_eq(u, "CRITICAL") {
        Severity::Critical
    } else if str_eq(u, "HIGH") {
        Severity::High
    } else if str_eq(u, "MEDIUM") {
        Severity::Medium
    } else if str_eq(u, "LOW") {
        Severity::Low
    } else {
        Severity::Medium
    }
}

/// First listed fixed version that is greater than `current` (as strings).
pub open spec fn first_newer(fixed: Seq<Option<String>>, current: Seq<char>) -> Option<Seq<char>>
    decreases fixed.len(),
{
    if fixed.len() == 0 {
        None
    } else if fixed[0] is Some && lex_less(current, fixed[0]->0@) {
        Some(fixed[0]->0@)
    } else {
        first_newer(fixed.drop_first(), current)
    }
}

/// The first fixed version, among those listed, above the current one.
pub fn extract_fixed_version(fixed: Option<&Vec<Option<String>>>, current_version: &str) -> (r:
    Option<String>)
    ensures
        match fixed {
            None => r is None,
            Some(v) => match r {
                Some(x) => first_newer(v@, current_version@) == Some(x@),
                None => first_newer(v@, current_version@) is None,
            },
        },
{
    let v = match fixed {
        Some(v) => v,
        None => return None,
    };
    let mut i: usize = 0;
    assert(v@.skip(0) =~= v@);
    while i < v.len()
        invariant
            i <= v@.len(),
            first_newer(v@, current_version@) == first_newer(v@.skip(i as int), current_version@),
            fixed == Some(v),
        decreases v@.len() - i,
    {
        assert(v@.skip(i as int).drop_first() =~= v@.skip(i + 1));
        assert(v@.skip(i as int)[0] == v@[i as int]);
        match &v[i] {
            Some(f) => {
                if str_lt(current_version, f.as_str()) {
                    return Some(f.clone());
                }
            },
            None => {},
        }
        i += 1;
    }
    assert(v@.skip(i as int).len() == 0);
    None
}

/// Optional string's view.
pub open spec fn opt_view(o: Option<String>) -> Option<Seq<char>> {
    match o {
        Some(s) => Some(s@),
        None => None,
    }
}

/// The vulnerability an OSV record describes for `group:artifact` at
/// `version`.
pub fn vulnerability_from_osv(group: &str, artifact: &str, version: &str, entry: &OsvEntry) -> (r:
    Vulnerability)
    ensures
        r.group@ == group@,
        r.artifact@ == artifact@,
        r.current_version@ == version@,
        r.cve_id@ == match entry.id {
            Some(x) => x@,
            None => "unknown"@,
        },
        r.description@ == match entry.summary {
            Some(x) => x@,
            None => "No description"@,
        },
        r.severity == severity_of_score(opt_view(entry.severity_score)),
        opt_view(r.fixed_version) == match entry.fixed {
            Some(v) => first_newer(v@, version@),
            None => None,
        },
{
    let cve_id = match &entry.id {
        Some(x) => x.clone(),
        None => owned("unknown"),
    };
    let description = match &entry.summary {
        Some(x) => x.clone(),
        None => owned("No description"),
    };
    let severity = match &entry.severity_score {
        Some(x) => extract_severity(Some(x.as_str())),
        None => extract_severity(None),
    };
    let fixed_version = match &entry.fixed {
        Some(v) => extract_fixed_version(Some(v), version),
        None => extract_fixed_version(None, version),
    };
    Vulnerability {
        group: owned(group),
        artifact: owned(artifact),
        current_version: owned(version),
        cve_id,
        severity,
        description,
        fixed_version,
    }
}

/// Body of the OSV query for one Maven package version.
pub open spec fn osv_query_text(group: Seq<char>, artifact: Seq<char>, version: Seq<char>) -> Seq<
    char,
> {
    "{\"package\":{\"name\":\""@ + artifact + "\",\"ecosystem\":\"Maven\",\"namespace\":\""@
        + group + "\"},\"version\":\""@ + version + "\"}"@
}

/// Body of the OSV query for `group:artifact` at `version`.
pub fn osv_query(group: &str, artifact: &str, version: &str) -> (r: String)
    ensures
        r@ == osv_query_text(group@, artifact@, version@),
{
    let mut q = owned("{\"package\":{\"name\":\"");
    push_str(&mut q, artifact);
    push_str(&mut q, "\",\"ecosystem\":\"Maven\",\"namespace\":\"");
    push_str(&mut q, group);
    push_str(&mut q, "\"},\"version\":\"");
    push_str(&mut q, version);
    push_str(&mut q, "\"}");
    q
}

/// Text of the suggestion to upgrade to `fixed`.
pub open spec fn fix_text(v: Vulnerability, fixed: Seq<char>) -> Seq<char> {
    "升级 "@ + v.group@ + ":"@ + v.artifact@ + " 从 "@ + v.current_version@ + " 到 "@ + fixed
}

/// Suggestion to upgrade a vulnerable dependency, where a fixed version
/// is known.
pub fn get_fix_suggestion(vuln: &Vulnerability) -> (r: Option<String>)
    ensures
        match vuln.fixed_version {
            Some(f) => r matches Some(x) && x@ == fix_text(*vuln, f@),
            None => r is None,
        },
{
    match &vuln.fixed_version {
        Some(fixed) => {
            let mut s = owned("升级 ");
            push_str(&mut s, vuln.group.as_str());
            push_str(&mut s, ":");
            push_str(&mut s, vuln.artifact.as_str());
            push_str(&mut s, " 从 ");
            push_str(&mut s, vuln.current_version.as_str());
            push_str(&mut s, " 到 ");
            push_str(&mut s, fixed.as_str());
            Some(s)
        },
        None => None,
    }
}

/// Counts of vulnerabilities by severity.
#[derive(Debug)]
pub struct AuditReport {
    pub total_vulnerabilities: usize,
    pub critical: usize,
    pub high: usize,
    pub medium: usize,
    pub low: usize,
    pub vulnerabilities: Vec<Vulnerability>,
}

/// Number of vulnerabilities of severity `sev`.
pub open spec fn count_severity(s: Seq<Vulnerability>, sev: Severity) -> nat
    decreases s.len(),
{
    if s.len() == 0 {
        0
    } else {
        count_severity(s.drop_last(), sev) + if s.last().severity == sev {
            1nat
        } else {
            0nat
        }
    }
}

/// The vulnerabilities of severity `sev`, in order.
pub open spec fn with_severity(s: Seq<Vulnerability>, sev: Severity) -> Seq<Vulnerability>
    decreases s.len(),
{
    if s.len() == 0 {
        Seq::empty()
    } else if s.last().severity == sev {
        with_severity(s.drop_last(), sev).push(s.last())
    } else {
        with_severity(s.drop_last(), sev)
    }
}

/// The four severity counts add up to the number of vulnerabilities.
pub proof fn lemma_severity_counts_total(s: Seq<Vulnerability>)
    ensures
        count_severity(s, Severity::Critical) + count_severity(s, Severity::High) + count_severity(
            s,
            Severity::Medium,
        ) + count_severity(s, Severity::Low) == s.len(),
    decreases s.len(),
{
    if s.len() > 0 {
        lemma_severity_counts_total(s.drop_last());
    }
}

/// Every vulnerability kept by `with_severity(s, sev)` has severity `sev`,
/// and there are as many as `count_severity` says.
pub proof fn lemma_with_severity(s: Seq<Vulnerability>, sev: Severity)
    ensures
        with_severity(s, sev).len() == count_severity(s, sev),
        forall|i: int|
            0 <= i < with_severity(s, sev).len() ==> (#[trigger] with_severity(s, sev)[i]).severity
                == sev,
    decreases s.len(),
{
    if s.len() > 0 {
        lemma_with_severity(s.drop_last(), sev);
    }
}

/// Report on a list of vulnerabilities: how many there are of each
/// severity.
pub fn generate_report(vulnerabilities: Vec<Vulnerability>) -> (r: AuditReport)
    ensures
        r.vulnerabilities@ == vulnerabilities@,
        r.total_vulnerabilities == vulnerabilities@.len(),
        r.critical == count_severity(vulnerabilities@, Severity::Critical),
        r.high == count_severity(vulnerabilities@, Severity::High),
        r.medium == count_severity(vulnerabilities@, Severity::Medium),
        r.low == count_severity(vulnerabilities@, Severity::Low),
        r.critical + r.high + r.medium + r.low == r.total_vulnerabilities,
{
    let ghost s = vulnerabilities@;
    let mut critical: usize = 0;
    let mut high: usize = 0;
    let mut medium: usize = 0;
    let mut low: usize = 0;
    let mut i: usize = 0;
    assert(s.take(0) =~= Seq::<Vulnerability>::empty());
    while i < vulnerabilities.len()
        invariant
            s == vulnerabilities@,
            i <= s.len(),
            critical == count_severity(s.take(i as int), Severity::Critical),
            high == count_severity(s.take(i as int), Severity::High),
            medium == count_severity(s.take(i as int), Severity::Medium),
            low == count_severity(s.take(i as int), Severity::Low),
            critical + high + medium + low == i,
        decreases s.len() - i,
    {
        assert(s.take(i + 1).drop_last() =~= s.take(i as int));
        assert(s.take(i + 1).last() == s[i as int]);
        match vulnerabilities[i].severity {
            Severity::Critical => critical += 1,
            Severity::High => high += 1,
            Severity::Medium => medium += 1,
            Severity::Low => low += 1,
        }
        i += 1;
    }
    assert(s.take(s.len() as int) =~= s);
    proof {
        lemma_severity_counts_total(s);
    }
    let total = vulnerabilities.len();
    AuditReport {
        total_vulnerabilities: total,
        critical,
        high,
        medium,
        low,
        vulnerabilities,
    }
}

/// The vulnerabilities from most to least severe, those of one severity
/// in their original order (a stable sort by descending severity).
pub open spec fn by_severity(s: Seq<Vulnerability>) -> Seq<Vulnerability> {
    with_severity(s, Severity::Critical) + with_severity(s, Severity::High) + with_severity(
        s,
        Severity::Medium,
    ) + with_severity(s, Severity::Low)
}

/// Sorts vulnerabilities from most to least severe, keeping the order of
/// those of equal severity.
pub fn sort_by_severity(vulns: Vec<Vulnerability>) -> (r: Vec<Vulnerability>)
    ensures
        r@ == by_severity(vulns@),
        r@.len() == vulns@.len(),
        forall|i: int, j: int| 0 <= i < j < r@.len() ==> rank(r@[i].severity) >= rank(r@[j].severity),
{
    let ghost s = vulns@;
    let mut crit: Vec<Vulnerability> = Vec::new();
    let mut high: Vec<Vulnerability> = Vec::new();
    let mut med: Vec<Vulnerability> = Vec::new();
    let mut low: Vec<Vulnerability> = Vec::new();
    for x in it: vulns.into_iter()
        invariant
            it.seq() == s,
            crit@ == with_severity(s.take(it.index() as int), Severity::Critical),
            high@ == with_severity(s.take(it.index() as int), Severity::High),
            med@ == with_severity(s.take(it.index() as int), Severity::Medium),
            low@ == with_severity(s.take(it.index() as int), Severity::Low),
    {
        let ghost k = it.index() as int;
        assert(s.take(k + 1).drop_last() =~= s.take(k));
        assert(s.take(k + 1).last() == x);
        match x.severity {
            Severity::Critical => crit.push(x),
            Severity::High => high.push(x),
            Severity::Medium => med.push(x),
            Severity::Low => low.push(x),
        }
    }
    assert(s.take(s.len() as int) =~= s);
    crit.append(&mut high);
    crit.append(&mut med);
    crit.append(&mut low);
    proof {
        lemma_with_severity(s, Severity::Critical);
        lemma_with_severity(s, Severity::High);
        lemma_with_severity(s, Severity::Medium);
        lemma_with_severity(s, Severity::Low);
        lemma_severity_counts_total(s);
        let a = with_severity(s, Severity::Critical);
        let b = with_severity(s, Severity::High);
        let c = with_severity(s, Severity::Medium);
        let d = with_severity(s, Severity::Low);
        let r = a + b + c + d;
        assert forall|i: int| 0 <= i < r.len() implies #[trigger] rank(r[i].severity) == if i
            < a.len() {
            3int
        } else if i < a.len() + b.len() {
            2int
        } else if i < a.len() + b.len() + c.len() {
            1int
        } else {
            0int
        } by {
            if i < a.len() {
                assert(r[i] == a[i]);
            } else if i < a.len() + b.len() {
                assert(r[i] == b[i - a.len()]);
            } else if i < a.len() + b.len() + c.len() {
                assert(r[i] == c[i - a.len() - b.len()]);
            } else {
                assert(r[i] == d[i - a.len() - b.len() - c.len()]);
            }
        }
    }
    crit
}

} // verus!
