//! Trusted interface to `crossbeam_queue::SegQueue`.
//!
//! Publishes issued while a local subscription is still in flight are
//! buffered in an unbounded queue per channel. Verus does not read the
//! `crossbeam_queue` crate, so the queue type is declared opaque here, its
//! abstract contents are named by an uninterpreted view function, and the
//! operations the buffering logic needs are wrapped with first-in-first-out
//! contracts over that view.

use crossbeam_queue::SegQueue;
use vstd::prelude::*;

verus! {

#[verifier::external_type_specification]
#[verifier::external_body]
#[verifier::reject_recursive_types(T)]
pub struct ExSegQueue<T>(SegQueue<T>);

/// The elements held by a buffered-publish queue, oldest first.
pub uninterp spec fn seg_queue_view(q: SegQueue<String>) -> Seq<String>;

/// Relies on crossbeam_queue::SegQueue::new: returns an empty queue.
#[verifier::external_body]
pub(crate) fn seg_queue_new() -> (q: SegQueue<String>)
    ensures
        seg_queue_view(q) == Seq::<String>::empty(),
{
    SegQueue::new()
}

/// Relies on crossbeam_queue::SegQueue::push: appends the element at the
/// tail of the queue.
#[verifier::external_body]
pub(crate) fn seg_queue_push(q: &mut SegQueue<String>, s: String)
    ensures
        seg_queue_view(*final(q)) == seg_queue_view(*old(q)).push(s),
{
    q.push(s);
}

/// Relies on crossbeam_queue::SegQueue::pop: takes the element at the head
/// of the queue, or returns `None` if the queue is empty.
#[verifier::external_body]
pub(crate) fn seg_queue_pop(q: &mut SegQueue<String>) -> (r: Option<String>)
    ensures
        match r {
            Some(s) => {
                &&& seg_queue_view(*old(q)).len() > 0
                &&& s == seg_queue_view(*old(q))[0]
                &&& seg_queue_view(*final(q)) == seg_queue_view(*old(q)).drop_first()
            },
            None => {
                &&& seg_queue_view(*old(q)).len() == 0
                &&& seg_queue_view(*final(q)) == seg_queue_view(*old(q))
            },
        },
{
    q.pop()
}

} // verus!
