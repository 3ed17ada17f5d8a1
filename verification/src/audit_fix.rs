//! Audit with fix suggestions: known-vulnerable artifacts among the
//! locked dependencies and the upgrade that fixes each.

use vstd::prelude::*;
use crate::error::Result;
use crate::text::{split, views, str_split, str_eq, owned};

verus! {

/// Vulnerabilities found and the fixes suggested for them.
#[derive(Debug, Clone)]
pub struct AuditFixReport {
    pub vulnerabilities: Vec<Vulnerability>,
    pub fixes: Vec<FixSuggestion>,
}

/// A vulnerability of one dependency.
#[derive(Debug, Clone)]
pub struct Vulnerability {
    pub dependency: String,
    pub severity: String,
    pub description: String,
    pub fixed_version: Option<String>,
}

/// An upgrade that fixes a vulnerability.
#[derive(Debug, Clone)]
pub struct FixSuggestion {
    pub dependency: String,
    pub current_version: String,
    pub suggested_version: String,
    pub reason: String,
}

/// Description of the known log4j vulnerability.
pub open spec fn log4j_description() -> Seq<char> {
    "Log4j 远程代码执行漏洞"@
}

/// The coordinate `group:artifact` names a log4j artifact known to be
/// vulnerable.
pub open spec fn is_known_vulnerable(coord: Seq<char>) -> bool {
    let parts = split(coord, ':');
    parts.len() == 2 && (parts[1] == "log4j-core"@ || parts[1] == "log4j-api"@)
}

/// The view of a vulnerability: dependency, severity, description, fixed
/// version.
pub open spec fn vuln_view(v: Vulnerability) -> (Seq<char>, Seq<char>, Seq<char>, Option<Seq<char>>) {
    (
        v.dependency@,
        v.severity@,
        v.description@,
        match v.fixed_version {
            Some(f) => Some(f@),
            None => None,
        },
    )
}

/// The view of a fix: dependency, current version, suggested version,
/// reason.
pub open spec fn fix_view(f: FixSuggestion) -> (Seq<char>, Seq<char>, Seq<char>, Seq<char>) {
    (f.dependency@, f.current_version@, f.suggested_version@, f.reason@)
}

/// The vulnerability reported for a known-vulnerable coordinate.
pub open spec fn known_vuln(coord: Seq<char>) -> (Seq<char>, Seq<char>, Seq<char>, Option<Seq<char>>) {
    (coord, "HIGH"@, log4j_description(), Some("2.17.0"@))
}

/// Vulnerabilities of the dependencies (coordinate, version), in order.
pub open spec fn found_vulns(deps: Seq<(String, String)>) -> Seq<(Seq<char>, Seq<char>, Seq<char>, Option<Seq<char>>)>
    decreases deps.len(),
{
    if deps.len() == 0 {
        Seq::empty()
    } else if is_known_vulnerable(deps.last().0@) {
        found_vulns(deps.drop_last()).push(known_vuln(deps.last().0@))
    } else {
        found_vulns(deps.drop_last())
    }
}

/// Fixes for the vulnerabilities of the dependencies, in order.
pub open spec fn found_fixes(deps: Seq<(String, String)>) -> Seq<(Seq<char>, Seq<char>, Seq<char>, Seq<char>)>
    decreases deps.len(),
{
    if deps.len() == 0 {
        Seq::empty()
    } else if is_known_vulnerable(deps.last().0@) {
        found_fixes(deps.drop_last()).push(
            (deps.last().0@, deps.last().1@, "2.17.0"@, log4j_description()),
        )
    } else {
        found_fixes(deps.drop_last())
    }
}

/// The known vulnerability of `coord` at `version`, if any.
pub fn check_vulnerability(coord: &str, version: &str) -> (r: Option<Vulnerability>)
    ensures
        match r {
            Some(v) => is_known_vulnerable(coord@) && vuln_view(v) == known_vuln(coord@),
            None => !is_known_vulnerable(coord@),
        },
{
    let parts = str_split(coord, ':');
    proof {
        assert(views(parts@).len() == parts@.len());
    }
    if parts.len() == 2 {
        proof {
            assert(views(parts@)[1] == parts@[1]@);
        }
        let artifact = parts[1].as_str();
        if str_eq(artifact, "log4j-core") || str_eq(artifact, "log4j-api") {
            return Some(
                Vulnerability {
                    dependency: owned(coord),
                    severity: owned("HIGH"),
                    description: owned("Log4j 远程代码执行漏洞"),
                    fixed_version: Some(owned("2.17.0")),
                },
            );
        }
    }
    None
}

/// The upgrade that fixes `vuln` for `coord` at `current_version`, where
/// a fixed version is known.
pub fn generate_fix_suggestion(coord: &str, current_version: &str, vuln: &Vulnerability) -> (r:
    Option<FixSuggestion>)
    ensures
        match vuln.fixed_version {
            Some(f) => r matches Some(s) && fix_view(s) == (
                coord@,
                current_version@,
                f@,
                vuln.description@,
            ),
            None => r is None,
        },
{
    match &vuln.fixed_version {
        Some(fixed) => Some(
            FixSuggestion {
                dependency: owned(coord),
                current_version: owned(current_version),
                suggested_version: fixed.clone(),
                reason: vuln.description.clone(),
            },
        ),
        None => None,
    }
}

/// Audits the locked dependencies (coordinate, version): each known
/// vulnerability with the upgrade that fixes it.
pub fn audit_with_fix(dependencies: &Vec<(String, String)>) -> (r: Result<AuditFixReport>)
    ensures
        r matches Ok(rep) && rep.vulnerabilities@.map_values(|v: Vulnerability| vuln_view(v))
            == found_vulns(dependencies@) && rep.fixes@.map_values(|f: FixSuggestion| fix_view(f))
            == found_fixes(dependencies@),
{
    let ghost s = dependencies@;
    let mut vulnerabilities: Vec<Vulnerability> = Vec::new();
    let mut fixes: Vec<FixSuggestion> = Vec::new();
    let mut i: usize = 0;
    assert(s.take(0) =~= Seq::<(String, String)>::empty());
    while i < dependencies.len()
        invariant
            s == dependencies@,
            i <= s.len(),
            vulnerabilities@.map_values(|v: Vulnerability| vuln_view(v)) == found_vulns(
                s.take(i as int),
            ),
            fixes@.map_values(|f: FixSuggestion| fix_view(f)) == found_fixes(s.take(i as int)),
        decreases s.len() - i,
    {
        assert(s.take(i + 1).drop_last() =~= s.take(i as int));
        assert(s.take(i + 1).last() == s[i as int]);
        let coord = dependencies[i].0.as_str();
        let version = dependencies[i].1.as_str();
        match check_vulnerability(coord, version) {
            Some(vuln) => {
                let fix = generate_fix_suggestion(coord, version, &vuln);
                let ghost v0 = vulnerabilities@;
                let ghost f0 = fixes@;
                match fix {
                    Some(f) => {
                        fixes.push(f);
                    },
                    None => {},
                }
                vulnerabilities.push(vuln);
                assert(vulnerabilities@.map_values(|v: Vulnerability| vuln_view(v)) =~= v0.map_values(
                    |v: Vulnerability| vuln_view(v),
                ).push(known_vuln(coord@)));
                assert(fixes@.map_values(|f: FixSuggestion| fix_view(f)) =~= f0.map_values(
                    |f: FixSuggestion| fix_view(f),
                ).push((coord@, version@, "2.17.0"@, log4j_description())));
            },
            None => {},
        }
        i += 1;
    }
    assert(s.take(s.len() as int) =~= s);
    Ok(AuditFixReport { vulnerabilities, fixes })
}

} // verus!
