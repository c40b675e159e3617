//! A binary-heap priority queue with two orderings: smallest priority
//! first ("minimize head") or largest priority first ("maximize head").
//! Insertion sifts the new entry up, extraction sifts the replacement
//! root down, and both are proved to keep the heap invariant and to
//! conserve the queue's entries.

mod conservation;
mod order;
mod queue;

pub use conservation::QueueOp;
pub use conservation::inserts_of;
pub use conservation::lemma_size_conservation;
pub use conservation::size_after;
pub use conservation::successful_takes;
pub use order::PriorityMode;
pub use order::heap_ordered;
pub use order::lemma_drain_monotonic;
pub use order::lemma_parent_index_bounds;
pub use order::lemma_root_wins;
pub use order::parent_index;
pub use order::wins;
pub use queue::PriorityQueue;
