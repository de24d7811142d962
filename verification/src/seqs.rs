//! Small facts about sequences shared by the shuffling and sorting code.

use vstd::prelude::*;
use vstd::seq_lib::group_to_multiset_ensures;

verus! {

/// Swapping two positions of a sequence keeps its multiset of elements.
pub proof fn lemma_swap_multiset<A>(s: Seq<A>, a: int, b: int)
    requires
        0 <= a < s.len(),
        0 <= b < s.len(),
    ensures
        s.update(a, s[b]).update(b, s[a]).to_multiset() == s.to_multiset(),
{
    broadcast use group_to_multiset_ensures;
    broadcast use vstd::seq_lib::to_multiset_update;

    if a == b {
        assert(s.update(a, s[b]).update(b, s[a]) =~= s);
    } else {
        let s1 = s.update(a, s[b]);
        assert(s1[b] == s[b]);
        assert(s1.to_multiset() == s.to_multiset().insert(s[b]).remove(s[a]));
        assert(s1.update(b, s[a]).to_multiset() == s1.to_multiset().insert(s[a]).remove(s1[b]));
        assert(s.to_multiset().count(s[a]) > 0) by {
            assert(s.contains(s[a]));
        }
        assert(s.to_multiset().insert(s[b]).remove(s[a]).insert(s[a]).remove(s[b])
            =~= s.to_multiset());
    }
}

/// The swap of two positions inside a subrange is a swap of the subrange.
pub proof fn lemma_swap_in_subrange<A>(s: Seq<A>, start: int, end: int, a: int, b: int)
    requires
        0 <= start <= a < end <= s.len(),
        start <= b < end,
    ensures
        s.update(a, s[b]).update(b, s[a]).subrange(start, end) == s.subrange(start, end).update(
            a - start,
            s[b],
        ).update(b - start, s[a]),
{
    assert(s.update(a, s[b]).update(b, s[a]).subrange(start, end) =~= s.subrange(
        start,
        end,
    ).update(a - start, s[b]).update(b - start, s[a]));
}

/// An element of a subrange whose multiset is preserved comes from the
/// matching subrange of the other sequence.
pub proof fn lemma_subrange_multiset_source<A>(
    s1: Seq<A>,
    s2: Seq<A>,
    start: int,
    end: int,
    i: int,
)
    requires
        0 <= start <= end <= s1.len(),
        s1.len() == s2.len(),
        s2.subrange(start, end).to_multiset() == s1.subrange(start, end).to_multiset(),
        start <= i < end,
    ensures
        exists|j: int| start <= j < end && s1[j] == s2[i],
{
    broadcast use group_to_multiset_ensures;

    let sub2 = s2.subrange(start, end);
    let sub1 = s1.subrange(start, end);
    assert(sub2[i - start] == s2[i]);
    assert(sub2.contains(s2[i]));
    assert(sub2.to_multiset().count(s2[i]) > 0);
    assert(sub1.to_multiset().count(s2[i]) > 0);
    assert(sub1.contains(s2[i]));
    let j0 = choose|j0: int| 0 <= j0 < sub1.len() && sub1[j0] == s2[i];
    assert(s1[start + j0] == s2[i]);
}

} // verus!
