//! Ranking and ordering.  Search results are ordered by a single `u128`
//! rank per record — composed so that its numeric order equals the business
//! ordering — and sorted by a verified insertion sort that keeps the
//! records a permutation of the input.

use vstd::prelude::*;
use vstd::seq_lib::group_to_multiset_ensures;

verus! {

/// A record with a total order given by a numeric rank: smaller ranks come
/// first.
pub trait Ranked: Sized {
    spec fn rank(&self) -> int;

    fn key(&self) -> (r: u128)
        ensures
            r == self.rank(),
    ;
}

/// Nondecreasing by rank.
pub open spec fn sorted_by_rank<T: Ranked>(s: Seq<T>) -> bool {
    forall|i: int, j: int| 0 <= i < j < s.len() ==> s[i].rank() <= s[j].rank()
}

/// Insertion sort: afterwards the records are the same multiset, in
/// nondecreasing rank order.
pub fn sort_by_rank<T: Ranked>(v: &mut Vec<T>)
    ensures
        sorted_by_rank(final(v)@),
        final(v)@.to_multiset() == old(v)@.to_multiset(),
        final(v)@.len() == old(v)@.len(),
{
    broadcast use group_to_multiset_ensures;

    let n = v.len();
    if n == 0 {
        return ;
    }
    for i in 1..n
        invariant
            n == v@.len(),
            v@.to_multiset() == old(v)@.to_multiset(),
            forall|a: int, b: int| 0 <= a < b < i ==> v@[a].rank() <= v@[b].rank(),
    {
        let key = v[i].key();
        let mut k = i;
        while k > 0 && v[k - 1].key() > key
            invariant
                i < n,
                n == v@.len(),
                k <= i,
                key == v@[i as int].rank(),
                forall|a: int, b: int| 0 <= a < b < i ==> v@[a].rank() <= v@[b].rank(),
                forall|m: int| k <= m < i ==> v@[m].rank() > key,
            decreases k,
        {
            k = k - 1;
        }
        let ghost before = v@;
        let x = v.remove(i);
        v.insert(k, x);
        proof {
            let after = v@;
            assert(after =~= before.remove(i as int).insert(k as int, x));
            vstd::seq_lib::to_multiset_remove::<T>(before, i as int);
            vstd::seq_lib::to_multiset_insert::<T>(before.remove(i as int), k as int, x);
            assert(before.remove(i as int).to_multiset() == before.to_multiset().remove(x));
            assert(after.to_multiset() == before.remove(i as int).to_multiset().insert(x));
            assert(before[i as int] == x && before.contains(x));
            before.to_multiset_ensures();
            assert(before.to_multiset().count(x) > 0);
            assert(before.to_multiset().remove(x).insert(x) =~= before.to_multiset());
            assert(after.to_multiset() == before.to_multiset());
            assert forall|a: int, b: int| 0 <= a < b < i + 1 implies after[a].rank()
                <= after[b].rank() by {
                let ka = k as int;
                let ia = i as int;
                assert(after[ka] == x);
                if a < ka {
                    assert(after[a] == before[a]);
                }
                if ka < a <= ia {
                    assert(after[a] == before[a - 1]);
                }
                if b < ka {
                    assert(after[b] == before[b]);
                }
                if ka < b <= ia {
                    assert(after[b] == before[b - 1]);
                }
                if ka > 0 {
                    assert(before[ka - 1].rank() <= key);
                }
            }
        }
    }
}

} // verus!
