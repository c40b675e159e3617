//! Entry conservation over whole histories of queue operations.
//!
//! `insert` grows the queue by exactly one entry and a non-empty `take`
//! shrinks it by exactly one, while a `take` on an empty queue returns
//! nothing and changes nothing — that is what the contracts of
//! `PriorityQueue::insert` and `PriorityQueue::take` state. This module
//! lifts those per-call facts to arbitrary mixed histories: however
//! inserts and takes are interleaved, the successful takes and the
//! entries still held add up to the inserts performed.

use vstd::prelude::*;

verus! {

/// One public operation on a queue, as far as its size is concerned.
pub enum QueueOp {
    Insert,
    Take,
}

/// How many entries a queue holds after the history `ops`, starting from
/// an empty queue: an insert adds one, a take removes one when any entry
/// is present and does nothing otherwise.
pub open spec fn size_after(ops: Seq<QueueOp>) -> int
    decreases ops.len(),
{
    if ops.len() == 0 {
        0
    } else {
        let before = size_after(ops.drop_last());
        match ops.last() {
            QueueOp::Insert => before + 1,
            QueueOp::Take => if before > 0 {
                before - 1
            } else {
                before
            },
        }
    }
}

/// How many takes in the history `ops` succeed, i.e. run on a non-empty
/// queue and return an item.
pub open spec fn successful_takes(ops: Seq<QueueOp>) -> int
    decreases ops.len(),
{
    if ops.len() == 0 {
        0
    } else {
        let before = successful_takes(ops.drop_last());
        match ops.last() {
            QueueOp::Insert => before,
            QueueOp::Take => if size_after(ops.drop_last()) > 0 {
                before + 1
            } else {
                before
            },
        }
    }
}

/// How many inserts the history `ops` performs.
pub open spec fn inserts_of(ops: Seq<QueueOp>) -> int
    decreases ops.len(),
{
    if ops.len() == 0 {
        0
    } else {
        match ops.last() {
            QueueOp::Insert => inserts_of(ops.drop_last()) + 1,
            QueueOp::Take => inserts_of(ops.drop_last()),
        }
    }
}

/// Law: after any mixed history of inserts and takes, the number of
/// successful takes plus the number of entries still in the queue equals
/// the number of inserts performed. No entry is ever duplicated or lost.
pub proof fn lemma_size_conservation(ops: Seq<QueueOp>)
    ensures
        successful_takes(ops) + size_after(ops) == inserts_of(ops),
    decreases ops.len(),
{
    if ops.len() > 0 {
        lemma_size_conservation(ops.drop_last());
    }
}

} // verus!
