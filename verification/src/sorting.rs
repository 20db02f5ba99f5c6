//! Ascending in-place sorting of word buffers, with the uniqueness law
//! that pins the sorted result: two sorted sequences holding the same
//! words are the same sequence.

use vstd::prelude::*;
use vstd::seq_lib::lemma_sorted_unique;
use vstd::relations::sorted_by;
use vstd::relations::total_ordering;

verus! {

/// A word sequence in non-decreasing order.
pub open spec fn is_sorted(s: Seq<u64>) -> bool {
    forall|i: int, j: int| 0 <= i <= j < s.len() ==> s[i] <= s[j]
}

/// Law: a sorted sequence is pinned by the words it holds — two sorted
/// sequences with the same multiset of words are equal. Hence sorting is
/// idempotent, and sorting an already-sorted (in particular an empty or a
/// one-element) buffer leaves it unchanged.
pub proof fn lemma_sorted_words_unique(s: Seq<u64>, t: Seq<u64>)
    requires
        is_sorted(s),
        is_sorted(t),
        s.to_multiset() == t.to_multiset(),
    ensures
        s == t,
{
    let leq = |x: u64, y: u64| x <= y;
    assert(total_ordering(leq));
    assert(sorted_by(s, leq));
    assert(sorted_by(t, leq));
    lemma_sorted_unique(s, t, leq);
    assert(s =~= t);
}

/// Sorts the buffer in place into non-decreasing order, keeping exactly
/// the words that were there (as a multiset).
pub fn sort_words(v: &mut Vec<u64>)
    ensures
        is_sorted(final(v)@),
        final(v)@.to_multiset() == old(v)@.to_multiset(),
        final(v)@.len() == old(v)@.len(),
{
    broadcast use vstd::seq_lib::group_to_multiset_ensures;

    let n = v.len();
    let mut i: usize = 1;
    while i < n
        invariant
            n == v@.len(),
            v@.len() == old(v)@.len(),
            v@.to_multiset() == old(v)@.to_multiset(),
            1 <= i,
            forall|a: int, b: int| 0 <= a <= b < i && b < n ==> v@[a] <= v@[b],
        decreases n - i,
    {
        let mut j: usize = i;
        while j > 0 && v[j - 1] > v[j]
            invariant
                j <= i < n,
                n == v@.len(),
                v@.len() == old(v)@.len(),
                v@.to_multiset() == old(v)@.to_multiset(),
                forall|a: int, b: int|
                    0 <= a <= b <= i && a != j && b != j ==> v@[a] <= v@[b],
                forall|b: int| j < b <= i ==> v@[j as int] <= v@[b],
            decreases j,
        {
            let ghost pre = v@;
            let lo = v[j - 1];
            let hi = v[j];
            v[j - 1] = hi;
            v[j] = lo;
            proof {
                assert(v@ =~= pre.update(j - 1, pre[j as int]).update(j as int, pre[j - 1]));
                lemma_swap_preserves_multiset(pre, j - 1, j as int);
            }
            j -= 1;
        }
        i += 1;
    }
}

/// Exchanging two positions of a sequence keeps its multiset of elements.
proof fn lemma_swap_preserves_multiset(s: Seq<u64>, i: int, j: int)
    requires
        0 <= i < s.len(),
        0 <= j < s.len(),
        i != j,
    ensures
        s.update(i, s[j]).update(j, s[i]).to_multiset() == s.to_multiset(),
{
    broadcast use vstd::seq_lib::group_to_multiset_ensures;
    broadcast use vstd::multiset::group_multiset_axioms;

    let s1 = s.update(i, s[j]);
    let s2 = s1.update(j, s[i]);
    assert(s1.to_multiset() == s.to_multiset().insert(s[j]).remove(s[i]));
    assert(s1[j] == s[j]);
    assert(s2.to_multiset() == s1.to_multiset().insert(s[i]).remove(s[j]));
    assert(s.to_multiset().contains(s[i]));
    assert(s2.to_multiset() =~= s.to_multiset());
}

} // verus!
