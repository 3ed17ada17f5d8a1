//! Dependency cache: its entries and their order by size.

use vstd::prelude::*;
use crate::util::path_join;

verus! {

/// One entry of the cache directory.
#[derive(Debug, Clone)]
pub struct CacheEntry {
    pub name: String,
    pub size: u64,
    pub modified: String,
}

/// Number of leading entries at least as large as `size`.
pub open spec fn larger_prefix(sorted: Seq<CacheEntry>, size: u64) -> int
    decreases sorted.len(),
{
    if sorted.len() == 0 {
        0
    } else if sorted[0].size >= size {
        1 + larger_prefix(sorted.drop_first(), size)
    } else {
        0
    }
}

/// `x` inserted after the leading entries at least as large as it.
pub open spec fn insert_by_size(sorted: Seq<CacheEntry>, x: CacheEntry) -> Seq<CacheEntry> {
    sorted.insert(larger_prefix(sorted, x.size), x)
}

/// The entries from largest to smallest, entries of equal size in their
/// original order (a stable sort by descending size).
pub open spec fn by_size_desc(s: Seq<CacheEntry>) -> Seq<CacheEntry>
    decreases s.len(),
{
    if s.len() == 0 {
        Seq::empty()
    } else {
        insert_by_size(by_size_desc(s.drop_last()), s.last())
    }
}

/// Sizes never grow along the sequence.
pub open spec fn size_sorted(s: Seq<CacheEntry>) -> bool {
    forall|i: int, j: int| 0 <= i < j < s.len() ==> s[i].size >= s[j].size
}

proof fn lemma_larger_prefix(sorted: Seq<CacheEntry>, size: u64)
    requires
        size_sorted(sorted),
    ensures
        0 <= larger_prefix(sorted, size) <= sorted.len(),
        forall|i: int| 0 <= i < larger_prefix(sorted, size) ==> #[trigger] sorted[i].size >= size,
        forall|i: int| larger_prefix(sorted, size) <= i < sorted.len() ==> #[trigger] sorted[i].size < size,
    decreases sorted.len(),
{
    if sorted.len() > 0 {
        let t = sorted.drop_first();
        assert(size_sorted(t)) by {
            assert forall|i: int, j: int| 0 <= i < j < t.len() implies t[i].size >= t[j].size by {
                assert(t[i] == sorted[i + 1] && t[j] == sorted[j + 1]);
            }
        }
        lemma_larger_prefix(t, size);
        if sorted[0].size >= size {
            assert forall|i: int| 0 <= i < larger_prefix(sorted, size) implies #[trigger] sorted[i].size >= size by {
                if i > 0 {
                    assert(sorted[i] == t[i - 1]);
                }
            }
            assert forall|i: int| larger_prefix(sorted, size) <= i < sorted.len() implies #[trigger] sorted[i].size < size by {
                assert(sorted[i] == t[i - 1]);
            }
        } else {
            assert forall|i: int| 0 <= i < sorted.len() implies #[trigger] sorted[i].size < size by {
                if i > 0 {
                    assert(sorted[0].size >= sorted[i].size);
                }
            }
        }
    }
}

/// Sorting by descending size gives sizes that never grow, and keeps the
/// number of entries.
pub proof fn lemma_by_size_desc_sorted(s: Seq<CacheEntry>)
    ensures
        size_sorted(by_size_desc(s)),
        by_size_desc(s).len() == s.len(),
    decreases s.len(),
{
    if s.len() > 0 {
        lemma_by_size_desc_sorted(s.drop_last());
        let t = by_size_desc(s.drop_last());
        let x = s.last();
        lemma_larger_prefix(t, x.size);
        let p = larger_prefix(t, x.size);
        let r = t.insert(p, x);
        assert forall|i: int, j: int| 0 <= i < j < r.len() implies r[i].size >= r[j].size by {
            if j < p {
                assert(r[i] == t[i] && r[j] == t[j]);
            } else if j == p {
                assert(r[j] == x);
                assert(r[i] == t[i]);
            } else if i < p {
                assert(r[i] == t[i] && r[j] == t[j - 1]);
            } else if i == p {
                assert(r[i] == x && r[j] == t[j - 1]);
            } else {
                assert(r[i] == t[i - 1] && r[j] == t[j - 1]);
            }
        }
    }
}

/// Orders cache entries from largest to smallest, keeping the order of
/// entries of equal size.
pub fn sort_by_size_desc(entries: Vec<CacheEntry>) -> (r: Vec<CacheEntry>)
    ensures
        r@ == by_size_desc(entries@),
        size_sorted(r@),
        r@.len() == entries@.len(),
{
    let ghost s = entries@;
    let mut out: Vec<CacheEntry> = Vec::new();
    for x in it: entries.into_iter()
        invariant
            it.seq() == s,
            out@ == by_size_desc(s.take(it.index() as int)),
            size_sorted(out@),
    {
        let ghost k = it.index() as int;
        assert(s.take(k + 1).drop_last() =~= s.take(k));
        assert(s.take(k + 1).last() == x);
        proof {
            lemma_larger_prefix(out@, x.size);
            lemma_by_size_desc_sorted(s.take(k + 1));
        }
        let mut p: usize = 0;
        while p < out.len() && out[p].size >= x.size
            invariant
                p <= out@.len(),
                p <= larger_prefix(out@, x.size),
                0 <= larger_prefix(out@, x.size) <= out@.len(),
                forall|i: int| 0 <= i < larger_prefix(out@, x.size) ==> #[trigger] out@[i].size >= x.size,
                forall|i: int| larger_prefix(out@, x.size) <= i < out@.len() ==> #[trigger] out@[i].size < x.size,
            decreases out@.len() - p,
        {
            p += 1;
        }
        assert(p == larger_prefix(out@, x.size));
        out.insert(p, x);
    }
    assert(s.take(s.len() as int) =~= s);
    proof {
        lemma_by_size_desc_sorted(s);
    }
    out
}

/// Places searched for the cache under the home directory, in order.
pub open spec fn cache_candidates_of(home: Seq<char>) -> Seq<Seq<char>> {
    seq![
        path_join(path_join(home, ".cache"@), "coursier"@),
        path_join(path_join(home, ".coursier"@), "cache"@),
        path_join(path_join(home, ".jex"@), "cache"@),
    ]
}

/// The cache directories looked for under `home`, in order of preference;
/// the last is also the one created when none exists.
pub fn cache_candidates(home: &str) -> (r: Vec<String>)
    ensures
        crate::text::views(r@) == cache_candidates_of(home@),
{
    let mut v: Vec<String> = Vec::new();
    let a = crate::util::join_path(home, ".cache");
    v.push(crate::util::join_path(a.as_str(), "coursier"));
    let b = crate::util::join_path(home, ".coursier");
    v.push(crate::util::join_path(b.as_str(), "cache"));
    let c = crate::util::join_path(home, ".jex");
    v.push(crate::util::join_path(c.as_str(), "cache"));
    assert(crate::text::views(v@) =~= cache_candidates_of(home@));
    v
}

} // verus!
