//! Outdated dependencies and upgrades.

use vstd::prelude::*;
use crate::deps::{ProjectConfig, DepMap, config_wf, config_deps, add_to_config};
use crate::error::Result;
use crate::text::{split, views, str_split, str_eq, owned, join_pair};

verus! {

/// A dependency with a newer version available.
#[derive(Debug, Clone)]
pub struct OutdatedDep {
    pub group: String,
    pub artifact: String,
    pub current: String,
    pub latest: String,
}

/// View of an outdated dependency: group, artifact, current, latest.
pub open spec fn outdated_view(d: OutdatedDep) -> (Seq<char>, Seq<char>, Seq<char>, Seq<char>) {
    (d.group@, d.artifact@, d.current@, d.latest@)
}

/// The outdated dependencies among (coordinate, locked version, latest
/// version where it could be resolved), in order: those whose latest
/// version differs from the locked one, split into group and artifact
/// (empty when the coordinate has no second part).
pub open spec fn outdated_of(resolved: Seq<(String, String, Option<String>)>) -> Seq<
    (Seq<char>, Seq<char>, Seq<char>, Seq<char>),
>
    decreases resolved.len(),
{
    if resolved.len() == 0 {
        Seq::empty()
    } else {
        let (c, cur, lat) = resolved.last();
        let rest = outdated_of(resolved.drop_last());
        match lat {
            Some(l) => if l@ != cur@ {
                let parts = split(c@, ':');
                rest.push(
                    (
                        parts[0],
                        if parts.len() >= 2 {
                            parts[1]
                        } else {
                            Seq::empty()
                        },
                        cur@,
                        l@,
                    ),
                )
            } else {
                rest
            },
            None => rest,
        }
    }
}

/// Which entries are reported: an entry whose latest version is known and
/// differs in any way from the locked one is reported, with that locked
/// and that latest version; every report comes from such an entry, and
/// reports a latest version different from the locked one.  No order
/// between version strings is consulted.
pub proof fn lemma_outdated_reports(resolved: Seq<(String, String, Option<String>)>)
    ensures
        forall|i: int|
            0 <= i < resolved.len() && (#[trigger] resolved[i]).2 is Some && resolved[i].2->0@ != resolved[i].1@
                ==> exists|j: int|
                0 <= j < outdated_of(resolved).len() && outdated_of(resolved)[j].2 == resolved[i].1@
                    && Some(outdated_of(resolved)[j].3) == opt_view(resolved[i].2),
        forall|j: int|
            0 <= j < outdated_of(resolved).len() ==> (#[trigger] outdated_of(resolved)[j]).2
                != outdated_of(resolved)[j].3 && exists|i: int|
                0 <= i < resolved.len() && resolved[i].1@ == outdated_of(resolved)[j].2 && opt_view(
                    resolved[i].2,
                ) == Some(outdated_of(resolved)[j].3),
    decreases resolved.len(),
{
    if resolved.len() > 0 {
        let rest = resolved.drop_last();
        lemma_outdated_reports(rest);
        let out = outdated_of(resolved);
        let prev = outdated_of(rest);
        assert forall|i: int|
            0 <= i < resolved.len() && (#[trigger] resolved[i]).2 is Some && resolved[i].2->0@ != resolved[i].1@
            implies exists|j: int|
            0 <= j < out.len() && out[j].2 == resolved[i].1@ && Some(out[j].3) == opt_view(resolved[i].2) by {
            if i < rest.len() {
                assert(rest[i] == resolved[i]);
                let j = choose|j: int|
                    0 <= j < prev.len() && prev[j].2 == rest[i].1@ && Some(prev[j].3) == opt_view(rest[i].2);
                assert(out[j] == prev[j]);
            } else {
                assert(out[prev.len() as int].2 == resolved[i].1@);
            }
        }
        assert forall|j: int| 0 <= j < out.len() implies (#[trigger] out[j]).2 != out[j].3 && exists|i: int|
            0 <= i < resolved.len() && resolved[i].1@ == out[j].2 && opt_view(resolved[i].2) == Some(
                out[j].3,
            ) by {
            if j < prev.len() {
                assert(out[j] == prev[j]);
                let i = choose|i: int|
                    0 <= i < rest.len() && rest[i].1@ == prev[j].2 && opt_view(rest[i].2) == Some(prev[j].3);
                assert(resolved[i] == rest[i]);
            } else {
                let i = resolved.len() - 1;
                assert(resolved[i] == resolved.last());
            }
        }
    }
}

/// A version known or not, by its text.
pub open spec fn opt_view(o: Option<String>) -> Option<Seq<char>> {
    match o {
        Some(s) => Some(s@),
        None => None,
    }
}

/// The dependencies whose latest version (where it could be resolved)
/// differs from the locked one.
pub fn check_outdated(resolved: &Vec<(String, String, Option<String>)>) -> (r: Result<
    Vec<OutdatedDep>,
>)
    ensures
        r matches Ok(v) && v@.map_values(|d: OutdatedDep| outdated_view(d)) == outdated_of(
            resolved@,
        ),
{
    let ghost s = resolved@;
    let mut out: Vec<OutdatedDep> = Vec::new();
    let mut i: usize = 0;
    assert(s.take(0) =~= Seq::<(String, String, Option<String>)>::empty());
    while i < resolved.len()
        invariant
            s == resolved@,
            i <= s.len(),
            out@.map_values(|d: OutdatedDep| outdated_view(d)) == outdated_of(s.take(i as int)),
        decreases s.len() - i,
    {
        assert(s.take(i + 1).drop_last() =~= s.take(i as int));
        assert(s.take(i + 1).last() == s[i as int]);
        let (coord, current, latest) = &resolved[i];
        match latest {
            Some(l) => {
                if !str_eq(l.as_str(), current.as_str()) {
                    let parts = str_split(coord.as_str(), ':');
                    proof {
                        assert(views(parts@).len() == parts@.len());
                        crate::text::lemma_split_acc_len(coord@, ':', Seq::empty());
                        assert(views(parts@)[0] == parts@[0]@);
                    }
                    let group = parts[0].clone();
                    let artifact = if parts.len() >= 2 {
                        proof {
                            assert(views(parts@)[1] == parts@[1]@);
                        }
                        parts[1].clone()
                    } else {
                        String::new()
                    };
                    let ghost o0 = out@;
                    out.push(
                        OutdatedDep { group, artifact, current: current.clone(), latest: l.clone() },
                    );
                    assert(out@.map_values(|d: OutdatedDep| outdated_view(d)) =~= o0.map_values(
                        |d: OutdatedDep| outdated_view(d),
                    ).push(outdated_of(s.take(i + 1)).last()));
                }
            },
            None => {},
        }
        i += 1;
    }
    assert(s.take(s.len() as int) =~= s);
    Ok(out)
}

/// What upgrading one dependency did.
#[derive(Debug, Clone, PartialEq, Eq)]
pub enum UpgradeOutcome {
    /// It was already at the latest version; nothing changed.
    AlreadyLatest,
    /// It moved from the given version to the latest.
    Upgraded(String),
    /// It was not declared and has been added.
    Added,
}

/// Upgrades `coord` to `latest` in the configuration: nothing when it is
/// already there, otherwise its version set (or the dependency added).
pub fn upgrade_dep(config: &mut ProjectConfig, coord: &str, latest: &str) -> (r: UpgradeOutcome)
    requires
        config_wf(*old(config)),
    ensures
        config_wf(*final(config)),
        match r {
            UpgradeOutcome::AlreadyLatest => config_deps(*old(config)).contains_key(coord@)
                && config_deps(*old(config))[coord@] == latest@ && config_deps(*final(config))
                == config_deps(*old(config)),
            UpgradeOutcome::Upgraded(prev) => config_deps(*old(config)).contains_key(coord@)
                && config_deps(*old(config))[coord@] == prev@ && prev@ != latest@ && config_deps(
                *final(config),
            ) == config_deps(*old(config)).insert(coord@, latest@),
            UpgradeOutcome::Added => !config_deps(*old(config)).contains_key(coord@) && config_deps(
                *final(config),
            ) == config_deps(*old(config)).insert(coord@, latest@),
        },
{
    let current = match &config.dependencies {
        Some(d) => match d.get(coord) {
            Some(v) => Some(v.clone()),
            None => None,
        },
        None => None,
    };
    match current {
        Some(cur) => {
            if str_eq(cur.as_str(), latest) {
                return UpgradeOutcome::AlreadyLatest;
            }
            add_to_config(config, coord, latest);
            UpgradeOutcome::Upgraded(cur)
        },
        None => {
            add_to_config(config, coord, latest);
            UpgradeOutcome::Added
        },
    }
}

/// The configuration's dependencies with each outdated one set to its
/// latest version.
pub open spec fn upgraded_deps(m: Map<Seq<char>, Seq<char>>, outdated: Seq<OutdatedDep>) -> Map<
    Seq<char>,
    Seq<char>,
>
    decreases outdated.len(),
{
    if outdated.len() == 0 {
        m
    } else {
        upgraded_deps(m, outdated.drop_last()).insert(
            outdated.last().group@.push(':') + outdated.last().artifact@,
            outdated.last().latest@,
        )
    }
}

/// Sets every outdated dependency to its latest version in the
/// configuration.
pub fn upgrade_all(config: &mut ProjectConfig, outdated: &Vec<OutdatedDep>)
    requires
        config_wf(*old(config)),
    ensures
        config_wf(*final(config)),
        config_deps(*final(config)) == upgraded_deps(config_deps(*old(config)), outdated@),
{
    let ghost m0 = config_deps(*config);
    let mut i: usize = 0;
    assert(outdated@.take(0) =~= Seq::<OutdatedDep>::empty());
    while i < outdated.len()
        invariant
            i <= outdated@.len(),
            config_wf(*config),
            config_deps(*config) == upgraded_deps(m0, outdated@.take(i as int)),
        decreases outdated@.len() - i,
    {
        assert(outdated@.take(i + 1).drop_last() =~= outdated@.take(i as int));
        assert(outdated@.take(i + 1).last() == outdated@[i as int]);
        let d = &outdated[i];
        let key = join_pair(d.group.as_str(), ':', d.artifact.as_str());
        add_to_config(config, key.as_str(), d.latest.as_str());
        i += 1;
    }
    assert(outdated@.take(i as int) =~= outdated@);
}

} // verus!
