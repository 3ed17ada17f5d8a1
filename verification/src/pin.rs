//! Pinned dependency versions (`jex pin`): the pin table maps a coordinate
//! to the version it is held at.

use vstd::prelude::*;
use crate::error::{Error, Result};
use crate::deps::{DepMap, LockFile, lock_deps, pairs_map};
use crate::text::{concat3, owned};

verus! {

/// A pinned dependency.
#[derive(Debug, Clone)]
pub struct PinnedDep {
    pub coord: String,
    pub version: String,
    pub pinned_at: String,
}

/// The lock file's dependency map is well formed where present.
pub open spec fn lock_wf(l: LockFile) -> bool {
    match l.dependencies {
        Some(d) => d.wf(),
        None => true,
    }
}

/// Message of a pin request for a coordinate the lock file lacks.
pub open spec fn not_locked_message(coord: Seq<char>) -> Seq<char> {
    "依赖 "@ + coord + " 不存在"@
}

/// Unpinning a dependency right after pinning it leaves the other pins as
/// they were, and that one unpinned.
pub proof fn lemma_pin_then_unpin(pinned: Map<Seq<char>, Seq<char>>, coord: Seq<char>, version: Seq<char>)
    ensures
        pinned.insert(coord, version).remove(coord) == pinned.remove(coord),
{
    assert(pinned.insert(coord, version).remove(coord) =~= pinned.remove(coord));
}

/// Pinning all dependencies pins each locked version, whatever was pinned
/// before.
pub proof fn lemma_pin_all_pins_locked(pinned: Map<Seq<char>, Seq<char>>, locked: Map<Seq<char>, Seq<char>>, coord: Seq<char>)
    requires
        locked.contains_key(coord),
    ensures
        pinned.union_prefer_right(locked).contains_key(coord),
        pinned.union_prefer_right(locked)[coord] == locked[coord],
{
}

/// Pins `coord` at the version the lock file holds for it and returns that
/// version; fails, leaving the table as it was, when the lock file lacks it.
pub fn pin_dependency(lock: &LockFile, pinned: &mut DepMap, coord: &str) -> (r: Result<String>)
    requires
        lock_wf(*lock),
        old(pinned).wf(),
    ensures
        final(pinned).wf(),
        match r {
            Ok(v) => {
                &&& lock_deps(*lock).contains_key(coord@)
                &&& v@ == lock_deps(*lock)[coord@]
                &&& final(pinned)@ == old(pinned)@.insert(coord@, v@)
            },
            Err(e) => {
                &&& !lock_deps(*lock).contains_key(coord@)
                &&& e.0@ == not_locked_message(coord@)
                &&& final(pinned)@ == old(pinned)@
            },
        },
{
    let found: Option<String> = match &lock.dependencies {
        Some(d) => match d.get(coord) {
            Some(v) => Some(v.clone()),
            None => None,
        },
        None => None,
    };
    match found {
        Some(v) => {
            pinned.insert(owned(coord), v.clone());
            Ok(v)
        },
        None => {
            proof {
                reveal_strlit("依赖 ");
                reveal_strlit(" 不存在");
            }
            Err(Error::new(concat3("依赖 ", coord, " 不存在")))
        },
    }
}

/// Pins every locked dependency at its locked version (a locked version
/// replaces an earlier pin of the same coordinate) and returns how many
/// the lock file holds.
pub fn pin_all(lock: &LockFile, pinned: &mut DepMap) -> (count: usize)
    requires
        lock_wf(*lock),
        old(pinned).wf(),
    ensures
        final(pinned).wf(),
        final(pinned)@ == old(pinned)@.union_prefer_right(lock_deps(*lock)),
        count == match lock.dependencies {
            Some(d) => d.entries@.len(),
            None => 0,
        },
{
    match &lock.dependencies {
        None => {
            assert(old(pinned)@.union_prefer_right(Map::empty()) =~= old(pinned)@);
            0
        },
        Some(d) => {
            let n = d.entries.len();
            let ghost start = pinned@;
            let mut i: usize = 0;
            assert(start.union_prefer_right(pairs_map(d.entries@.take(0))) =~= start);
            while i < n
                invariant
                    n == d.entries@.len(),
                    i <= n,
                    pinned.wf(),
                    pinned@ == start.union_prefer_right(pairs_map(d.entries@.take(i as int))),
                decreases n - i,
            {
                let key = d.entries[i].0.clone();
                let value = d.entries[i].1.clone();
                let ghost before = pinned@;
                pinned.insert(key, value);
                proof {
                    let prefix = d.entries@.take(i as int);
                    let next = d.entries@.take(i + 1);
                    assert(next.drop_last() =~= prefix);
                    assert(next.last() == d.entries@[i as int]);
                    assert(pairs_map(next) == pairs_map(prefix).insert(
                        d.entries@[i as int].0@,
                        d.entries@[i as int].1@,
                    ));
                    assert(start.union_prefer_right(pairs_map(next)) =~= before.insert(
                        d.entries@[i as int].0@,
                        d.entries@[i as int].1@,
                    ));
                }
                i += 1;
            }
            assert(d.entries@.take(n as int) =~= d.entries@);
            n
        },
    }
}

/// Unpins `coord`; says whether it was pinned.
pub fn unpin_dependency(pinned: &mut DepMap, coord: &str) -> (removed: bool)
    requires
        old(pinned).wf(),
    ensures
        final(pinned).wf(),
        removed == old(pinned)@.contains_key(coord@),
        final(pinned)@ == old(pinned)@.remove(coord@),
{
    match pinned.remove(coord) {
        Some(_) => true,
        None => false,
    }
}

/// The pinned dependencies in table order; the pin time is not recorded.
pub fn list_pinned(pinned: &DepMap) -> (r: Vec<PinnedDep>)
    ensures
        r@.len() == pinned.entries@.len(),
        forall|i: int|
            0 <= i < r@.len() ==> {
                &&& (#[trigger] r@[i]).coord@ == pinned.entries@[i].0@
                &&& r@[i].version@ == pinned.entries@[i].1@
                &&& r@[i].pinned_at@ == "unknown"@
            },
{
    let mut out: Vec<PinnedDep> = Vec::new();
    let mut i: usize = 0;
    while i < pinned.entries.len()
        invariant
            i <= pinned.entries@.len(),
            out@.len() == i,
            forall|j: int|
                0 <= j < i ==> {
                    &&& (#[trigger] out@[j]).coord@ == pinned.entries@[j].0@
                    &&& out@[j].version@ == pinned.entries@[j].1@
                    &&& out@[j].pinned_at@ == "unknown"@
                },
        decreases pinned.entries@.len() - i,
    {
        out.push(PinnedDep {
            coord: pinned.entries[i].0.clone(),
            version: pinned.entries[i].1.clone(),
            pinned_at: owned("unknown"),
        });
        i += 1;
    }
    out
}

} // verus!
