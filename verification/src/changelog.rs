//! Changelog of locked dependency versions.

use vstd::prelude::*;
use crate::error::Result;
use crate::num::{parse_unsigned, decimal, parse_u32, u64_to_decimal};
use crate::text::{split, views, str_split, owned, str_eq, push_str};

verus! {

/// Version changes of the dependencies.
#[derive(Debug, Clone)]
pub struct ChangelogReport {
    pub entries: Vec<ChangelogEntry>,
}

/// One dependency whose version changed.
#[derive(Debug, Clone)]
pub struct ChangelogEntry {
    pub dependency: String,
    pub old_version: String,
    pub new_version: String,
}

/// The version before `version`: its patch number (third `.`-separated
/// part, an unsigned 32-bit number) one lower, when that number is above
/// zero; otherwise the version itself.
pub open spec fn previous_version(version: Seq<char>) -> Seq<char> {
    let parts = split(version, '.');
    if parts.len() >= 3 {
        match parse_unsigned(parts[2], u32::MAX as nat) {
            Some(p) => if p > 0 {
                parts[0] + "."@ + parts[1] + "."@ + decimal((p - 1) as nat)
            } else {
                version
            },
            None => version,
        }
    } else {
        version
    }
}

/// The version before `version` (see `previous_version`).
pub fn simulate_old_version(version: &str) -> (r: String)
    ensures
        r@ == previous_version(version@),
{
    let parts = str_split(version, '.');
    proof {
        assert(views(parts@).len() == parts@.len());
    }
    if parts.len() >= 3 {
        proof {
            assert(views(parts@)[0] == parts@[0]@);
            assert(views(parts@)[1] == parts@[1]@);
            assert(views(parts@)[2] == parts@[2]@);
        }
        match parse_u32(parts[2].as_str()) {
            Some(patch) => {
                if patch > 0 {
                    let d = u64_to_decimal((patch - 1) as u64);
                    let mut s = parts[0].clone();
                    push_str(&mut s, ".");
                    push_str(&mut s, parts[1].as_str());
                    push_str(&mut s, ".");
                    push_str(&mut s, d.as_str());
                    return s;
                }
            },
            None => {},
        }
    }
    owned(version)
}

/// View of an entry: dependency, old version, new version.
pub open spec fn entry_view(e: ChangelogEntry) -> (Seq<char>, Seq<char>, Seq<char>) {
    (e.dependency@, e.old_version@, e.new_version@)
}

/// Entries for the dependencies (coordinate, version) whose previous
/// version differs, in order.
pub open spec fn changelog_entries(deps: Seq<(String, String)>) -> Seq<(Seq<char>, Seq<char>, Seq<char>)>
    decreases deps.len(),
{
    if deps.len() == 0 {
        Seq::empty()
    } else {
        let (c, v) = deps.last();
        let rest = changelog_entries(deps.drop_last());
        if previous_version(v@) != v@ {
            rest.push((c@, previous_version(v@), v@))
        } else {
            rest
        }
    }
}

/// The changelog of the locked dependencies (coordinate, version).
pub fn generate_changelog(dependencies: &Vec<(String, String)>) -> (r: Result<ChangelogReport>)
    ensures
        r matches Ok(rep) && rep.entries@.map_values(|e: ChangelogEntry| entry_view(e))
            == changelog_entries(dependencies@),
{
    let ghost s = dependencies@;
    let mut entries: Vec<ChangelogEntry> = Vec::new();
    let mut i: usize = 0;
    assert(s.take(0) =~= Seq::<(String, String)>::empty());
    while i < dependencies.len()
        invariant
            s == dependencies@,
            i <= s.len(),
            entries@.map_values(|e: ChangelogEntry| entry_view(e)) == changelog_entries(
                s.take(i as int),
            ),
        decreases s.len() - i,
    {
        assert(s.take(i + 1).drop_last() =~= s.take(i as int));
        assert(s.take(i + 1).last() == s[i as int]);
        let coord = &dependencies[i].0;
        let version = &dependencies[i].1;
        let old_version = simulate_old_version(version.as_str());
        if !str_eq(old_version.as_str(), version.as_str()) {
            let ghost e0 = entries@;
            entries.push(
                ChangelogEntry {
                    dependency: coord.clone(),
                    old_version,
                    new_version: version.clone(),
                },
            );
            assert(entries@.map_values(|e: ChangelogEntry| entry_view(e)) =~= e0.map_values(
                |e: ChangelogEntry| entry_view(e),
            ).push((coord@, previous_version(version@), version@)));
        }
        i += 1;
    }
    assert(s.take(s.len() as int) =~= s);
    Ok(ChangelogReport { entries })
}

} // verus!
