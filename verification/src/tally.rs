//! Occurrence counts of strings, kept in the order in which each string
//! first appears.

use vstd::prelude::*;
use crate::text::{chars_of, seq_eq};

verus! {

/// Views of `(key, count)` pairs.
pub open spec fn count_views(v: Seq<(String, usize)>) -> Seq<(Seq<char>, nat)> {
    v.map_values(|e: (String, usize)| (e.0@, e.1 as nat))
}

/// Index of key `k` among the pairs, or their number.
pub open spec fn key_pos(acc: Seq<(Seq<char>, nat)>, k: Seq<char>) -> int
    decreases acc.len(),
{
    if acc.len() == 0 {
        0
    } else if acc[0].0 == k {
        0
    } else {
        1 + key_pos(acc.drop_first(), k)
    }
}

/// One more occurrence of `k`.
pub open spec fn bump(acc: Seq<(Seq<char>, nat)>, k: Seq<char>) -> Seq<(Seq<char>, nat)> {
    let p = key_pos(acc, k);
    if 0 <= p < acc.len() {
        acc.update(p, (k, acc[p].1 + 1))
    } else {
        acc.push((k, 1))
    }
}

/// Counts of the strings of `s` added to `acc`.
pub open spec fn tally_from(s: Seq<Seq<char>>, acc: Seq<(Seq<char>, nat)>) -> Seq<(Seq<char>, nat)>
    decreases s.len(),
{
    if s.len() == 0 {
        acc
    } else {
        tally_from(s.drop_first(), bump(acc, s[0]))
    }
}

/// Each distinct string of `s` with the number of its occurrences, in order
/// of first occurrence.
pub open spec fn tally(s: Seq<Seq<char>>) -> Seq<(Seq<char>, nat)> {
    tally_from(s, Seq::empty())
}

proof fn lemma_key_pos(acc: Seq<(Seq<char>, nat)>, k: Seq<char>)
    ensures
        0 <= key_pos(acc, k) <= acc.len(),
        key_pos(acc, k) < acc.len() ==> acc[key_pos(acc, k)].0 == k,
        forall|j: int| 0 <= j < key_pos(acc, k) ==> acc[j].0 != k,
    decreases acc.len(),
{
    if acc.len() > 0 && acc[0].0 != k {
        lemma_key_pos(acc.drop_first(), k);
        assert forall|j: int| 0 <= j < key_pos(acc, k) implies acc[j].0 != k by {
            if j > 0 {
                assert(acc[j] == acc.drop_first()[j - 1]);
            }
        }
    }
}

/// Counts the strings of `items`: each distinct one with its number of
/// occurrences, in order of first occurrence.
pub fn tally_strings(items: &Vec<String>) -> (r: Vec<(String, usize)>)
    ensures
        count_views(r@) == tally(items@.map_values(|s: String| s@)),
{
    let ghost s = items@.map_values(|x: String| x@);
    let mut acc: Vec<(String, usize)> = Vec::new();
    let mut i: usize = 0;
    assert(s.skip(0) =~= s);
    assert(count_views(acc@) =~= Seq::<(Seq<char>, nat)>::empty());
    while i < items.len()
        invariant
            i <= items@.len(),
            s == items@.map_values(|x: String| x@),
            tally_from(s.skip(i as int), count_views(acc@)) == tally(s),
            forall|j: int| 0 <= j < acc@.len() ==> #[trigger] acc@[j].1 <= i,
        decreases items@.len() - i,
    {
        let ghost av = count_views(acc@);
        let k = &items[i];
        let kv = chars_of(k.as_str());
        assert(s.skip(i as int).drop_first() =~= s.skip(i + 1));
        assert(s.skip(i as int)[0] == k@);
        proof {
            lemma_key_pos(av, k@);
        }
        let mut p: usize = 0;
        while p < acc.len()
            invariant
                p <= acc@.len(),
                av == count_views(acc@),
                kv@ == k@,
                forall|j: int| 0 <= j < p ==> av[j].0 != k@,
                0 <= key_pos(av, k@) <= av.len(),
                key_pos(av, k@) < av.len() ==> av[key_pos(av, k@)].0 == k@,
                forall|j: int| 0 <= j < key_pos(av, k@) ==> av[j].0 != k@,
            ensures
                p <= acc@.len(),
                p < acc@.len() ==> av[p as int].0 == k@,
                forall|j: int| 0 <= j < p ==> av[j].0 != k@,
            decreases acc@.len() - p,
        {
            let ek = chars_of(acc[p].0.as_str());
            if seq_eq(&ek, &kv) {
                break;
            }
            p += 1;
        }
        if p < acc.len() {
            assert(av[p as int].0 == k@);
            assert(key_pos(av, k@) == p);
            let c = acc[p].1;
            let name = acc[p].0.clone();
            acc.set(p, (name, c + 1));
            assert(count_views(acc@) =~= bump(av, k@));
        } else {
            proof {
                let kp = key_pos(av, k@);
                if kp < av.len() {
                    assert(av[kp].0 != k@);
                }
            }
            assert(key_pos(av, k@) == av.len());
            acc.push((k.clone(), 1));
            assert(count_views(acc@) =~= bump(av, k@));
        }
        i += 1;
    }
    assert(s.skip(i as int) =~= Seq::<Seq<char>>::empty());
    acc
}

} // verus!
