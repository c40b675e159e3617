//! The priority queue itself: a growable flat sequence of (item, priority)
//! entries kept in heap order, with sift-up on insertion and sift-down on
//! extraction.

use vstd::prelude::*;

use crate::order::PriorityMode;
use crate::order::heap_ordered;
use crate::order::lemma_parent_index_bounds;
use crate::order::lemma_root_wins;
use crate::order::parent_index;
use crate::order::wins;

verus! {

/// Heap order everywhere except that the entry at index `x` may beat its
/// parent. This is the transient state of a sift-up walk: the hole `x` is
/// the only place the invariant may be broken from below.
spec fn heap_ordered_except_at<R>(mode: PriorityMode, s: Seq<(R, u64)>, x: int) -> bool {
    forall|i: int|
        1 <= i < s.len() && i != x ==> wins(mode, s[parent_index(i)].1, (#[trigger] s[i]).1)
}

/// Heap order everywhere except that the entry at index `x` may lose to
/// its children. This is the transient state of a sift-down walk: the
/// hole `x` is the only place the invariant may be broken from above.
spec fn heap_ordered_except_under<R>(mode: PriorityMode, s: Seq<(R, u64)>, x: int) -> bool {
    forall|i: int|
        1 <= i < s.len() && parent_index(i) != x
            ==> wins(mode, s[parent_index(i)].1, (#[trigger] s[i]).1)
}

/// Across the hole at `x`, the grandparent still dominates: the parent of
/// `x` beats both children of `x`. Both sift walks need this to restore
/// the invariant after a swap.
spec fn grandparent_bridges<R>(mode: PriorityMode, s: Seq<(R, u64)>, x: int) -> bool {
    x != 0 ==> forall|c: int|
        2 * x + 1 <= c <= 2 * x + 2 && c < s.len()
            ==> wins(mode, s[parent_index(x)].1, (#[trigger] s[c]).1)
}

/// Exchanging two entries of a sequence leaves its multiset of entries
/// unchanged.
proof fn lemma_swap_preserves_multiset<A>(s: Seq<A>, i: int, j: int)
    requires
        0 <= i < s.len(),
        0 <= j < s.len(),
    ensures
        s.update(i, s[j]).update(j, s[i]).to_multiset() == s.to_multiset(),
{
    broadcast use vstd::seq_lib::group_to_multiset_ensures;
    broadcast use vstd::multiset::group_multiset_axioms;

    if i == j {
        assert(s.update(i, s[j]).update(j, s[i]) =~= s);
    } else {
        let s1 = s.update(i, s[j]);
        let s2 = s1.update(j, s[i]);
        assert(s1.to_multiset() == s.to_multiset().insert(s[j]).remove(s[i]));
        assert(s2.to_multiset() == s1.to_multiset().insert(s[i]).remove(s1[j]));
        assert(s1[j] == s[j]);
        assert(s.contains(s[i]));
        assert(s.to_multiset().count(s[i]) > 0);
        assert(s2.to_multiset() =~= s.to_multiset());
    }
}

/// Relies on std's `<[T]>::swap`, reached through `Vec`'s deref: it
/// exchanges the elements at the two indices and moves nothing else.
#[verifier::external_body]
fn swap_entries<T>(data: &mut Vec<T>, i: usize, j: usize)
    requires
        i < old(data).len(),
        j < old(data).len(),
    ensures
        final(data)@ == old(data)@.update(i as int, old(data)@[j as int]).update(
            j as int,
            old(data)@[i as int],
        ),
{
    data.swap(i, j);
}

/// A binary-heap priority queue over priorities of type `u64` carrying
/// opaque items of type `R`. The backing vector, read as a complete
/// binary tree rooted at index 0, always satisfies the heap invariant
/// between public operations.
pub struct PriorityQueue<R> {
    data: Vec<(R, u64)>,
    mode: PriorityMode,
}

impl<R> View for PriorityQueue<R> {
    type V = Seq<(R, u64)>;

    closed spec fn view(&self) -> Seq<(R, u64)> {
        self.data@
    }
}

impl<R> PriorityQueue<R> {
    /// The ordering mode the queue was constructed with.
    pub closed spec fn mode(&self) -> PriorityMode {
        self.mode
    }

    /// The queue's invariant: its entries are in heap order under its mode.
    pub open spec fn wf(&self) -> bool {
        heap_ordered(self.mode(), self@)
    }

    /// Construct an empty queue. `size_hint` only pre-allocates space and
    /// has no effect on behaviour.
    pub fn new(size_hint: usize, mode: PriorityMode) -> (q: Self)
        ensures
            q@ == Seq::<(R, u64)>::empty(),
            q.mode() == mode,
            q.wf(),
    {
        PriorityQueue { data: Vec::with_capacity(size_hint), mode }
    }

    /// The parent of the node at `idx`, relying on flooring integer
    /// division; the root has no parent, so callers must keep `idx != 0`.
    fn parent(&self, idx: usize) -> (p: usize)
        requires
            idx >= 1,
        ensures
            p as int == parent_index(idx as int),
    {
        (idx - 1) / 2
    }

    /// The two candidate child indices of the node at `idx`; whether they
    /// exist must be checked against the live length by the caller.
    fn children(&self, idx: usize) -> (c: (usize, usize))
        requires
            2 * idx + 2 <= usize::MAX,
        ensures
            c.0 == 2 * idx + 1,
            c.1 == 2 * idx + 2,
    {
        (idx * 2 + 1, idx * 2 + 2)
    }

    /// True when the entries at the two indices break the heap property,
    /// i.e. the child's priority beats the parent's. Equal priorities
    /// never violate, so ties stay where they are.
    fn violates_heap_property(&self, parent: usize, child: usize) -> (v: bool)
        requires
            parent < self@.len(),
            child < self@.len(),
        ensures
            v == !wins(self.mode(), self@[parent as int].1, self@[child as int].1),
    {
        match &self.mode {
            PriorityMode::MinimizeHead => self.data[parent].1 > self.data[child].1,
            PriorityMode::MaximizeHead => self.data[parent].1 < self.data[child].1,
        }
    }

    /// The child of `idx` most fit to become the parent during sift-down:
    /// none if `idx` has no child within the live length, the first child
    /// if it is the only one, else whichever of the two children wins
    /// against the other under the mode.
    fn best_child(&self, idx: usize) -> (r: Option<usize>)
        ensures
            match r {
                None => 2 * (idx as int) + 1 >= self@.len(),
                Some(c) => {
                    &&& 2 * (idx as int) + 1 < self@.len()
                    &&& c == 2 * (idx as int) + 1 || c == 2 * (idx as int) + 2
                    &&& (c as int) < self@.len()
                    &&& parent_index(c as int) == idx as int
                    &&& forall|d: int|
                        2 * (idx as int) + 1 <= d <= 2 * (idx as int) + 2 && d < self@.len()
                            ==> wins(self.mode(), self@[c as int].1, (#[trigger] self@[d]).1)
                },
            },
    {
        // Get the length of the data array
        let len = self.data.len();

        // A node at or past the midpoint has no children; the guard also
        // keeps the child index arithmetic below from overflowing.
        if idx >= len / 2 {
            None
        } else {
            // Find the children of this node
            let (child1, child2) = self.children(idx);

            // Since child2 > child1, if child1 is in range it is the only
            // child exactly when child2 is out of range.
            if len <= child2 {
                Some(child1)
            } else {
                // If child1 would violate the heap property as the parent
                // of child2 then take child2, otherwise take child1.
                if self.violates_heap_property(child1, child2) {
                    Some(child2)
                } else {
                    Some(child1)
                }
            }
        }
    }

    /// Insert an item with its priority. The entry joins the queue at the
    /// end of the sequence and sifts up until the heap invariant holds
    /// again; nothing else enters or leaves the queue.
    pub fn insert(&mut self, item: R, priority: u64)
        requires
            old(self).wf(),
        ensures
            final(self).wf(),
            final(self).mode() == old(self).mode(),
            final(self)@.len() == old(self)@.len() + 1,
            final(self)@.to_multiset() == old(self)@.to_multiset().insert((item, priority)),
    {
        // First insert at the end
        self.data.push((item, priority));

        proof {
            broadcast use vstd::seq_lib::group_to_multiset_ensures;

        }

        // Next work up the tree swapping this entry with its parent while
        // the pair violates the heap property
        let mut idx = self.data.len() - 1;

        while idx != 0
            invariant
                idx < self@.len(),
                self@.len() == old(self)@.len() + 1,
                self.mode() == old(self).mode(),
                heap_ordered_except_at(self.mode(), self@, idx as int),
                grandparent_bridges(self.mode(), self@, idx as int),
                self@.to_multiset() == old(self)@.to_multiset().insert((item, priority)),
            ensures
                heap_ordered(self.mode(), self@),
                self@.len() == old(self)@.len() + 1,
                self.mode() == old(self).mode(),
                self@.to_multiset() == old(self)@.to_multiset().insert((item, priority)),
            decreases idx,
        {
            let parent = self.parent(idx);
            if self.violates_heap_property(parent, idx) {
                // This parent-child pair violates the heap property: swap
                // them and continue one level up.
                let ghost pre = self@;
                let ghost x = idx as int;
                let ghost p = parent as int;
                swap_entries(&mut self.data, parent, idx);
                proof {
                    lemma_swap_preserves_multiset(pre, p, x);
                    lemma_parent_index_bounds(x);
                    let post = self@;
                    let mode = self.mode();
                    assert forall|i: int| 1 <= i < post.len() && i != p implies wins(
                        mode,
                        post[parent_index(i)].1,
                        (#[trigger] post[i]).1,
                    ) by {
                        lemma_parent_index_bounds(i);
                        if i == x {
                            // The swapped pair itself, now in order.
                        } else if parent_index(i) == p {
                            // A sibling of the hole: the risen entry beat
                            // the old parent, which beat the sibling.
                        } else if parent_index(i) == x {
                            // A child of the hole: the old parent moved
                            // down, and the grandparent bridge held.
                        }
                    }
                    assert forall|c: int|
                        p != 0 && 2 * p + 1 <= c <= 2 * p + 2 && c < post.len() implies wins(
                        mode,
                        post[parent_index(p)].1,
                        (#[trigger] post[c]).1,
                    ) by {
                        lemma_parent_index_bounds(p);
                        lemma_parent_index_bounds(c);
                    }
                    assert(heap_ordered_except_at(mode, post, p));
                    assert(grandparent_bridges(mode, post, p));
                }
                idx = parent;
            } else {
                // The heap property holds here, and with it everywhere.
                proof {
                    let s = self@;
                    let mode = self.mode();
                    assert forall|i: int| 1 <= i < s.len() implies wins(
                        mode,
                        s[parent_index(i)].1,
                        (#[trigger] s[i]).1,
                    ) by {
                        if i != idx as int {
                            assert(wins(mode, s[parent_index(i)].1, s[i].1));
                        }
                    }
                }
                break ;
            }
        }
    }

    /// Take the entry whose priority beats every other, or nothing from an
    /// empty queue. The root is swapped with the last entry, removed, and
    /// the replacement root sifts down until the heap invariant holds over
    /// the remaining entries.
    pub fn take(&mut self) -> (r: Option<R>)
        requires
            old(self).wf(),
        ensures
            final(self).wf(),
            final(self).mode() == old(self).mode(),
            old(self)@.len() == 0 ==> r is None && final(self)@ == old(self)@,
            old(self)@.len() > 0 ==> {
                &&& r == Some(old(self)@[0].0)
                &&& final(self)@.len() == old(self)@.len() - 1
                &&& final(self)@.to_multiset() == old(self)@.to_multiset().remove(old(self)@[0])
                &&& forall|j: int|
                    0 <= j < old(self)@.len() ==> wins(
                        old(self).mode(),
                        old(self)@[0].1,
                        (#[trigger] old(self)@[j]).1,
                    )
            },
    {
        // Take the heap length
        let heap_len = self.data.len();

        // If the heap is empty then return nothing
        if heap_len == 0 {
            return None;
        }

        proof {
            lemma_root_wins(self.mode(), self@);
        }

        // First swap the entry we want to remove with the last entry
        swap_entries(&mut self.data, 0, heap_len - 1);

        // Next, remove the entry we want from the heap by popping
        let result_value = self.data.pop();

        proof {
            broadcast use vstd::seq_lib::group_to_multiset_ensures;

            let pre = old(self)@;
            let m = pre.len() as int;
            let swapped = pre.update(0, pre[m - 1]).update(m - 1, pre[0]);
            lemma_swap_preserves_multiset(pre, 0, m - 1);
            assert(self@ =~= swapped.remove(m - 1));
            assert(self@.to_multiset() == pre.to_multiset().remove(pre[0]));
            let mode = self.mode();
            assert forall|i: int| 1 <= i < self@.len() && parent_index(i) != 0 implies wins(
                mode,
                self@[parent_index(i)].1,
                (#[trigger] self@[i]).1,
            ) by {
                lemma_parent_index_bounds(i);
                assert(self@[i] == pre[i]);
                assert(self@[parent_index(i)] == pre[parent_index(i)]);
            }
            assert(heap_ordered_except_under(mode, self@, 0));
        }

        // Now starting from the root work down until the heap property is
        // restored by swapping any parent that violates it with the best
        // of its children
        let mut idx: usize = 0;

        while idx < heap_len
            invariant
                idx < heap_len,
                heap_len == old(self)@.len(),
                self@.len() == old(self)@.len() - 1,
                self.mode() == old(self).mode(),
                heap_ordered_except_under(self.mode(), self@, idx as int),
                grandparent_bridges(self.mode(), self@, idx as int),
                self@.to_multiset() == old(self)@.to_multiset().remove(old(self)@[0]),
            ensures
                heap_ordered(self.mode(), self@),
                self@.len() == old(self)@.len() - 1,
                self.mode() == old(self).mode(),
                self@.to_multiset() == old(self)@.to_multiset().remove(old(self)@[0]),
            decreases heap_len - idx,
        {
            // Find the best candidate for swapping (in a minimize heap the
            // lowest-valued child, in a maximize heap the highest)
            if let Some(child) = self.best_child(idx) {
                // If the pair violates the heap property then swap it out
                if self.violates_heap_property(idx, child) {
                    let ghost pre = self@;
                    let ghost x = idx as int;
                    let ghost c = child as int;
                    swap_entries(&mut self.data, idx, child);
                    proof {
                        lemma_swap_preserves_multiset(pre, x, c);
                        lemma_parent_index_bounds(c);
                        let post = self@;
                        let mode = self.mode();
                        assert forall|i: int| 1 <= i < post.len() && parent_index(i) != c
                            implies wins(
                            mode,
                            post[parent_index(i)].1,
                            (#[trigger] post[i]).1,
                        ) by {
                            lemma_parent_index_bounds(i);
                            if i == c {
                                // The swapped pair itself, now in order.
                            } else if parent_index(i) == x {
                                // A sibling of the moved child: the best
                                // child beats its sibling.
                            } else if i == x {
                                // The hole itself as a child: its parent
                                // bridged to the risen child.
                            }
                        }
                        assert forall|e: int|
                            c != 0 && 2 * c + 1 <= e <= 2 * c + 2 && e < post.len() implies wins(
                            mode,
                            post[parent_index(c)].1,
                            (#[trigger] post[e]).1,
                        ) by {
                            lemma_parent_index_bounds(e);
                            assert(pre[e] == post[e]);
                        }
                        assert(heap_ordered_except_under(mode, post, c));
                        assert(grandparent_bridges(mode, post, c));
                    }
                    idx = child;
                } else {
                    // The best child does not beat this entry, so neither
                    // child does: the heap property holds everywhere.
                    proof {
                        let s = self@;
                        let mode = self.mode();
                        assert forall|i: int| 1 <= i < s.len() implies wins(
                            mode,
                            s[parent_index(i)].1,
                            (#[trigger] s[i]).1,
                        ) by {
                            lemma_parent_index_bounds(i);
                        }
                    }
                    break ;
                }
            } else {
                // No children within the live length: nothing below the
                // hole, so the heap property holds everywhere.
                proof {
                    let s = self@;
                    let mode = self.mode();
                    assert forall|i: int| 1 <= i < s.len() implies wins(
                        mode,
                        s[parent_index(i)].1,
                        (#[trigger] s[i]).1,
                    ) by {
                        lemma_parent_index_bounds(i);
                    }
                }
                break ;
            }
        }

        // Finally return the removed entry's item
        match result_value {
            Some(entry) => Some(entry.0),
            None => None,
        }
    }
}

} // verus!
