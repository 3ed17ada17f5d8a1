//! Version compatibility of the locked dependencies: an artifact locked at
//! more than one version is a conflict.

use vstd::prelude::*;
use crate::error::Result;
use crate::text::{split, views, str_split, str_eq, chars_of, seq_eq, concat2};

verus! {

/// Compatible artifacts, conflicts and warnings.
#[derive(Debug, Clone)]
pub struct CompatibilityReport {
    pub compatible: Vec<String>,
    pub conflicts: Vec<VersionConflict>,
    pub warnings: Vec<String>,
}

/// An artifact locked at different versions.
#[derive(Debug, Clone)]
pub struct VersionConflict {
    pub dependency: String,
    pub required_by: Vec<String>,
    pub versions: Vec<String>,
}

/// Index of artifact `k` among the groups, or their number.
pub open spec fn group_pos(acc: Seq<(Seq<char>, Seq<Seq<char>>)>, k: Seq<char>) -> int
    decreases acc.len(),
{
    if acc.len() == 0 {
        0
    } else if acc[0].0 == k {
        0
    } else {
        1 + group_pos(acc.drop_first(), k)
    }
}

/// Adds version `v` to the group of artifact `k` (a new group at the end
/// when `k` has none).
pub open spec fn group_add(acc: Seq<(Seq<char>, Seq<Seq<char>>)>, k: Seq<char>, v: Seq<char>) -> Seq<
    (Seq<char>, Seq<Seq<char>>),
> {
    let p = group_pos(acc, k);
    if 0 <= p < acc.len() {
        acc.update(p, (k, acc[p].1.push(v)))
    } else {
        acc.push((k, seq![v]))
    }
}

/// The artifact of a coordinate with exactly two `:`-separated parts.
pub open spec fn artifact_of(coord: Seq<char>) -> Option<Seq<char>> {
    let parts = split(coord, ':');
    if parts.len() == 2 {
        Some(parts[1])
    } else {
        None
    }
}

/// Versions grouped by artifact, artifacts in order of first appearance,
/// versions in order.
pub open spec fn version_groups(deps: Seq<(String, String)>) -> Seq<(Seq<char>, Seq<Seq<char>>)>
    decreases deps.len(),
{
    if deps.len() == 0 {
        Seq::empty()
    } else {
        let rest = version_groups(deps.drop_last());
        match artifact_of(deps.last().0@) {
            Some(a) => group_add(rest, a, deps.last().1@),
            None => rest,
        }
    }
}

/// The versions are not all the same.
pub open spec fn has_distinct(vs: Seq<Seq<char>>) -> bool {
    exists|i: int, j: int| 0 <= i < vs.len() && 0 <= j < vs.len() && vs[i] != vs[j]
}

/// Artifacts locked at one version, in group order.
pub open spec fn compatible_of(g: Seq<(Seq<char>, Seq<Seq<char>>)>) -> Seq<Seq<char>>
    decreases g.len(),
{
    if g.len() == 0 {
        Seq::empty()
    } else if has_distinct(g.last().1) {
        compatible_of(g.drop_last())
    } else {
        compatible_of(g.drop_last()).push(g.last().0)
    }
}

/// Artifacts locked at several versions, with their versions, in group
/// order.
pub open spec fn conflicts_of(g: Seq<(Seq<char>, Seq<Seq<char>>)>) -> Seq<(Seq<char>, Seq<Seq<char>>)>
    decreases g.len(),
{
    if g.len() == 0 {
        Seq::empty()
    } else if has_distinct(g.last().1) {
        conflicts_of(g.drop_last()).push(g.last())
    } else {
        conflicts_of(g.drop_last())
    }
}

/// Warnings for dependencies locked without a version, in order.
pub open spec fn missing_version_warnings(deps: Seq<(String, String)>) -> Seq<Seq<char>>
    decreases deps.len(),
{
    if deps.len() == 0 {
        Seq::empty()
    } else if deps.last().1@.len() == 0 {
        missing_version_warnings(deps.drop_last()).push(deps.last().0@ + " 缺少版本信息"@)
    } else {
        missing_version_warnings(deps.drop_last())
    }
}

/// Views of the groups built so far.
pub open spec fn groups_view(g: Seq<(String, Vec<String>)>) -> Seq<(Seq<char>, Seq<Seq<char>>)> {
    g.map_values(|e: (String, Vec<String>)| (e.0@, views(e.1@)))
}

proof fn lemma_group_pos(acc: Seq<(Seq<char>, Seq<Seq<char>>)>, k: Seq<char>)
    ensures
        0 <= group_pos(acc, k) <= acc.len(),
        group_pos(acc, k) < acc.len() ==> acc[group_pos(acc, k)].0 == k,
        forall|j: int| 0 <= j < group_pos(acc, k) ==> acc[j].0 != k,
    decreases acc.len(),
{
    if acc.len() > 0 && acc[0].0 != k {
        lemma_group_pos(acc.drop_first(), k);
        assert forall|j: int| 0 <= j < group_pos(acc, k) implies acc[j].0 != k by {
            if j > 0 {
                assert(acc[j] == acc.drop_first()[j - 1]);
            }
        }
    }
}

/// Adds `version` to the group of `artifact`.
fn add_to_group(groups: &mut Vec<(String, Vec<String>)>, artifact: &str, version: &String)
    ensures
        groups_view(final(groups)@) == group_add(groups_view(old(groups)@), artifact@, version@),
{
    let ghost g0 = groups_view(groups@);
    proof {
        lemma_group_pos(g0, artifact@);
    }
    let av = chars_of(artifact);
    let mut p: usize = 0;
    while p < groups.len()
        invariant
            p <= groups@.len(),
            g0 == groups_view(groups@),
            av@ == artifact@,
            forall|j: int| 0 <= j < p ==> g0[j].0 != artifact@,
        ensures
            p <= groups@.len(),
            g0 == groups_view(groups@),
            p < groups@.len() ==> g0[p as int].0 == artifact@,
            forall|j: int| 0 <= j < p ==> g0[j].0 != artifact@,
        decreases groups@.len() - p,
    {
        let kv = chars_of(groups[p].0.as_str());
        if seq_eq(&kv, &av) {
            break;
        }
        p += 1;
    }
    if p < groups.len() {
        assert(group_pos(g0, artifact@) == p);
        let name = groups[p].0.clone();
        let mut vs = groups[p].1.clone();
        let ghost vs0 = views(groups@[p as int].1@);
        vs.push(version.clone());
        assert(views(vs@) =~= vs0.push(version@));
        groups.set(p, (name, vs));
        assert(groups_view(groups@) =~= group_add(g0, artifact@, version@));
    } else {
        proof {
            let kp = group_pos(g0, artifact@);
            if kp < g0.len() {
                assert(g0[kp].0 != artifact@);
            }
        }
        let mut vs: Vec<String> = Vec::new();
        vs.push(version.clone());
        assert(views(vs@) =~= seq![version@]);
        groups.push((crate::text::owned(artifact), vs));
        assert(groups_view(groups@) =~= group_add(g0, artifact@, version@));
    }
}

/// Whether the versions are not all the same.
fn versions_differ(vs: &Vec<String>) -> (r: bool)
    ensures
        r == has_distinct(views(vs@)),
{
    let ghost s = views(vs@);
    if vs.len() == 0 {
        return false;
    }
    let first = vs[0].as_str();
    let mut i: usize = 1;
    while i < vs.len()
        invariant
            1 <= i <= vs@.len(),
            s == views(vs@),
            s.len() == vs@.len(),
            first@ == s[0],
            forall|j: int| 0 <= j < i ==> #[trigger] s[j] == s[0],
        decreases vs@.len() - i,
    {
        if !str_eq(vs[i].as_str(), first) {
            assert(s[i as int] != s[0]);
            return true;
        }
        i += 1;
    }
    proof {
        if has_distinct(s) {
            let (a, b) = choose|a: int, b: int| 0 <= a < s.len() && 0 <= b < s.len() && s[a] != s[b];
            assert(s[a] == s[0] && s[b] == s[0]);
        }
    }
    false
}

/// Checks the locked dependencies (coordinate, version): artifacts locked
/// at one version are compatible, those at several are conflicts (artifacts
/// in order of first appearance); each dependency without a version gives
/// a warning.
pub fn check_compatibility(dependencies: &Vec<(String, String)>) -> (r: Result<CompatibilityReport>)
    ensures
        r matches Ok(rep) && {
            let g = version_groups(dependencies@);
            &&& views(rep.compatible@) == compatible_of(g)
            &&& rep.conflicts@.map_values(|c: VersionConflict| (c.dependency@, views(c.versions@)))
                == conflicts_of(g)
            &&& forall|k: int| 0 <= k < rep.conflicts@.len() ==> #[trigger] rep.conflicts@[k].required_by@.len() == 0
            &&& views(rep.warnings@) == missing_version_warnings(dependencies@)
        },
{
    let ghost s = dependencies@;
    let mut groups: Vec<(String, Vec<String>)> = Vec::new();
    let mut warnings: Vec<String> = Vec::new();
    let mut i: usize = 0;
    assert(s.take(0) =~= Seq::<(String, String)>::empty());
    assert(groups_view(groups@) =~= Seq::<(Seq<char>, Seq<Seq<char>>)>::empty());
    while i < dependencies.len()
        invariant
            s == dependencies@,
            i <= s.len(),
            groups_view(groups@) == version_groups(s.take(i as int)),
            views(warnings@) == missing_version_warnings(s.take(i as int)),
        decreases s.len() - i,
    {
        assert(s.take(i + 1).drop_last() =~= s.take(i as int));
        assert(s.take(i + 1).last() == s[i as int]);
        let coord = dependencies[i].0.as_str();
        let version = &dependencies[i].1;
        let parts = str_split(coord, ':');
        proof {
            assert(views(parts@).len() == parts@.len());
        }
        if parts.len() == 2 {
            proof {
                assert(views(parts@)[1] == parts@[1]@);
            }
            add_to_group(&mut groups, parts[1].as_str(), version);
        }
        if chars_of(version.as_str()).len() == 0 {
            let ghost w0 = views(warnings@);
            warnings.push(concat2(coord, " 缺少版本信息"));
            assert(views(warnings@) =~= w0.push(coord@ + " 缺少版本信息"@));
        }
        i += 1;
    }
    assert(s.take(s.len() as int) =~= s);
    let ghost g = groups_view(groups@);
    let mut compatible: Vec<String> = Vec::new();
    let mut conflicts: Vec<VersionConflict> = Vec::new();
    let mut k: usize = 0;
    assert(g.take(0) =~= Seq::<(Seq<char>, Seq<Seq<char>>)>::empty());
    while k < groups.len()
        invariant
            g == groups_view(groups@),
            g.len() == groups@.len(),
            k <= g.len(),
            views(compatible@) == compatible_of(g.take(k as int)),
            conflicts@.map_values(|c: VersionConflict| (c.dependency@, views(c.versions@)))
                == conflicts_of(g.take(k as int)),
            forall|j: int| 0 <= j < conflicts@.len() ==> #[trigger] conflicts@[j].required_by@.len() == 0,
        decreases g.len() - k,
    {
        assert(g.take(k + 1).drop_last() =~= g.take(k as int));
        assert(g.take(k + 1).last() == g[k as int]);
        let name = &groups[k].0;
        let vs = &groups[k].1;
        if versions_differ(vs) {
            let ghost c0 = conflicts@;
            conflicts.push(
                VersionConflict { dependency: name.clone(), required_by: Vec::new(), versions: vs.clone() },
            );
            assert(conflicts@.map_values(|c: VersionConflict| (c.dependency@, views(c.versions@)))
                =~= c0.map_values(|c: VersionConflict| (c.dependency@, views(c.versions@))).push(
                g[k as int],
            ));
        } else {
            let ghost p0 = views(compatible@);
            compatible.push(name.clone());
            assert(views(compatible@) =~= p0.push(g[k as int].0));
        }
        k += 1;
    }
    assert(g.take(g.len() as int) =~= g);
    Ok(CompatibilityReport { compatible, conflicts, warnings })
}

} // verus!
