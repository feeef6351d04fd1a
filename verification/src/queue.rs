//! The pending-task queue, kept in a `priority_queue::PriorityQueue`.
//!
//! Verus does not look inside the queue. Its contents are named by
//! [`queued`], and each operation the agent uses is a thin call whose
//! contract is taken on trust from the queue's documented behaviour.

use priority_queue::PriorityQueue;
use std::hash::Hash;
use vstd::prelude::*;

verus! {

/// `priority_queue::PriorityQueue`, taken as it is: nothing inside it is
/// visible to proofs.
#[verifier::external_type_specification]
#[verifier::external_body]
#[verifier::reject_recursive_types(I)]
#[verifier::reject_recursive_types(P)]
#[verifier::reject_recursive_types(H)]
pub struct ExPriorityQueue<I: Hash + Eq, P: Ord, H>(PriorityQueue<I, P, H>);

/// A queue entry: an action's code, then the row and the column of its target.
pub type Entry = (u8, usize, usize);

/// The queue of pending entries, each under its priority.
pub type TaskQueue = PriorityQueue<Entry, usize>;

/// What a queue holds: each stored item with its priority. An item is stored
/// at most once.
pub uninterp spec fn queued(q: TaskQueue) -> Map<Entry, usize>;

/// The contents of a queue that holds nothing.
pub open spec fn no_entries() -> Map<Entry, usize> {
    Map::empty()
}

/// `PriorityQueue::new`: a queue that holds nothing.
#[verifier::external_body]
pub(crate) fn queue_new() -> (fresh: TaskQueue)
    ensures
        queued(fresh) == no_entries(),
{
    PriorityQueue::new()
}

/// `PriorityQueue::push`: the item is stored under the given priority. An
/// item already present keeps its place and has its priority replaced; the
/// result is that earlier priority, or `None` for a new item.
#[verifier::external_body]
pub(crate) fn queue_push(
    q: &mut TaskQueue,
    item: Entry,
    priority: usize,
) -> (previous: Option<usize>)
    ensures
        queued(*final(q)) == queued(*old(q)).insert(item, priority),
        previous == (if queued(*old(q)).contains_key(item) {
            Some(queued(*old(q))[item])
        } else {
            None
        }),
{
    q.push(item, priority)
}

/// `PriorityQueue::pop`: `None` on an empty queue, which stays empty.
/// Otherwise one stored item leaves with its priority, and no item that was
/// stored has a greater priority. Which of several items of equal priority
/// leaves is left open.
#[verifier::external_body]
pub(crate) fn queue_pop(q: &mut TaskQueue) -> (top: Option<(Entry, usize)>)
    ensures
        match top {
            None => queued(*old(q)).dom().is_empty() && queued(*final(q)) == queued(*old(q)),
            Some((item, priority)) => {
                &&& queued(*old(q)).contains_pair(item, priority)
                &&& forall|other: Entry| #[trigger]
                    queued(*old(q)).contains_key(other) ==> queued(*old(q))[other] <= priority
                &&& queued(*final(q)) == queued(*old(q)).remove(item)
            },
        },
{
    q.pop()
}

/// `PriorityQueue::len`: the number of stored items.
#[verifier::external_body]
pub(crate) fn queue_len(q: &TaskQueue) -> (n: usize)
    ensures
        n == queued(*q).len(),
{
    q.len()
}

} // verus!
