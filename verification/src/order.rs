//! The ordering model of the heap: which of two priorities wins under a
//! mode, how the flat sequence encodes a binary tree, and the facts that
//! follow for a sequence in heap order.

use vstd::prelude::*;

verus! {

/// Which end of the ordering sits at the head of the queue, fixed when a
/// queue is constructed and immutable for its lifetime.
#[derive(Clone, Copy)]
pub enum PriorityMode {
    MinimizeHead,
    MaximizeHead,
}

/// `a` does not lose to `b` under `mode`: for a minimize-head queue the
/// smaller priority wins, for a maximize-head queue the larger one.
/// Equal priorities never lose either way.
pub open spec fn wins(mode: PriorityMode, a: u64, b: u64) -> bool {
    match mode {
        PriorityMode::MinimizeHead => a <= b,
        PriorityMode::MaximizeHead => a >= b,
    }
}

/// Index of the parent of the node at index `i` of the flat sequence,
/// meaningful only for `i >= 1` (the root has no parent).
pub open spec fn parent_index(i: int) -> int {
    (i - 1) / 2
}

/// The sequence of (item, priority) entries is in heap order: no entry's
/// priority beats the priority of its parent.
pub open spec fn heap_ordered<R>(mode: PriorityMode, s: Seq<(R, u64)>) -> bool {
    forall|i: int|
        1 <= i < s.len() ==> wins(mode, s[parent_index(i)].1, (#[trigger] s[i]).1)
}

/// The parent of a non-root node lies strictly above it, and a node is
/// either the first or the second child of its parent.
pub proof fn lemma_parent_index_bounds(i: int)
    requires
        i >= 1,
    ensures
        0 <= parent_index(i) < i,
        i == 2 * parent_index(i) + 1 || i == 2 * parent_index(i) + 2,
{
}

proof fn lemma_root_wins_at<R>(mode: PriorityMode, s: Seq<(R, u64)>, j: int)
    requires
        heap_ordered(mode, s),
        0 <= j < s.len(),
    ensures
        wins(mode, s[0].1, s[j].1),
    decreases j,
{
    if j >= 1 {
        lemma_parent_index_bounds(j);
        lemma_root_wins_at(mode, s, parent_index(j));
    }
}

/// In a heap-ordered sequence the root's priority beats every priority
/// present: the head really is the best entry under the configured mode.
pub proof fn lemma_root_wins<R>(mode: PriorityMode, s: Seq<(R, u64)>)
    requires
        heap_ordered(mode, s),
        s.len() >= 1,
    ensures
        forall|j: int| 0 <= j < s.len() ==> wins(mode, s[0].1, (#[trigger] s[j]).1),
{
    assert forall|j: int| 0 <= j < s.len() implies wins(mode, s[0].1, (#[trigger] s[j]).1) by {
        lemma_root_wins_at(mode, s, j);
    }
}

/// Priorities drain in mode order: if one extraction leaves the entries of
/// `s1` minus its root, and a later heap-ordered state `s2` holds exactly
/// those entries, then the priority extracted first beats the one at the
/// head of `s2`. Chained over successive extractions this makes a full
/// drain come out sorted under the configured mode.
pub proof fn lemma_drain_monotonic<R>(mode: PriorityMode, s1: Seq<(R, u64)>, s2: Seq<(R, u64)>)
    requires
        heap_ordered(mode, s1),
        heap_ordered(mode, s2),
        s1.len() >= 1,
        s2.len() >= 1,
        s2.to_multiset() == s1.to_multiset().remove(s1[0]),
    ensures
        wins(mode, s1[0].1, s2[0].1),
{
    broadcast use vstd::seq_lib::group_to_multiset_ensures;
    broadcast use vstd::multiset::group_multiset_axioms;

    assert(s2.contains(s2[0]));
    assert(s2.to_multiset().count(s2[0]) > 0);
    assert(s1.to_multiset().count(s2[0]) > 0);
    assert(s1.contains(s2[0]));
    let j = choose|j: int| 0 <= j < s1.len() && s1[j] == s2[0];
    lemma_root_wins(mode, s1);
    assert(wins(mode, s1[0].1, s1[j].1));
}

} // verus!
