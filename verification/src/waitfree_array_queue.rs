//! Bounded FIFO queue for inbound packets.
//!
//! The storage is a `crossbeam_queue::ArrayQueue`, a lock-free bounded
//! multi-producer multi-consumer queue; used with one producer (the
//! deadline handler) and one consumer (the application) it is wait-free.
//! The queue's contents are named by [`array_queue_contents`] and the
//! methods' contracts speak of that name; the calls themselves are
//! trusted.
use vstd::prelude::*;

use crossbeam_queue::ArrayQueue;

use crate::wire::DeliverPacket;

verus! {

/// Why a push was refused; the item comes back to the caller.
#[derive(Debug)]
pub enum Error {
    NoSlotAvailable { item: DeliverPacket },
}

#[verifier::external_type_specification]
#[verifier::external_body]
#[verifier::reject_recursive_types(T)]
pub struct ExArrayQueue<T>(ArrayQueue<T>);

/// The packets queued, from the head (next to pop) to the tail.
pub uninterp spec fn array_queue_contents(q: ArrayQueue<DeliverPacket>) -> Seq<DeliverPacket>;

/// The fixed capacity the queue was created with.
pub uninterp spec fn array_queue_capacity(q: ArrayQueue<DeliverPacket>) -> nat;

/// Relies on crossbeam_queue::ArrayQueue::new: creates an empty queue of
/// the given capacity. It panics on a zero capacity and on one so large
/// that no power of two exceeds it, so those are excluded here.
#[verifier::external_body]
fn queue_new(cap: usize) -> (q: ArrayQueue<DeliverPacket>)
    requires
        0 < cap <= usize::MAX / 2,
    ensures
        array_queue_contents(q) == Seq::<DeliverPacket>::empty(),
        array_queue_capacity(q) == cap,
{
    ArrayQueue::new(cap)
}

/// Relies on crossbeam_queue::ArrayQueue::push: appends the value at the
/// tail, or hands it back exactly when the queue already holds as many
/// items as its capacity.
#[verifier::external_body]
fn queue_push(q: &mut ArrayQueue<DeliverPacket>, item: DeliverPacket) -> (r: Result<
    (),
    DeliverPacket,
>)
    ensures
        array_queue_capacity(*final(q)) == array_queue_capacity(*old(q)),
        match r {
            Ok(()) => array_queue_contents(*old(q)).len() < array_queue_capacity(*old(q))
                && array_queue_contents(*final(q)) == array_queue_contents(*old(q)).push(item),
            Err(it) => it == item && array_queue_contents(*old(q)).len() == array_queue_capacity(
                *old(q),
            ) && array_queue_contents(*final(q)) == array_queue_contents(*old(q)),
        },
{
    q.push(item)
}

/// Relies on crossbeam_queue::ArrayQueue::pop: takes the head of the
/// queue, or reports that the queue is empty.
#[verifier::external_body]
fn queue_pop(q: &mut ArrayQueue<DeliverPacket>) -> (r: Option<DeliverPacket>)
    ensures
        array_queue_capacity(*final(q)) == array_queue_capacity(*old(q)),
        match r {
            Some(item) => array_queue_contents(*old(q)).len() > 0 && item == array_queue_contents(
                *old(q),
            )[0] && array_queue_contents(*final(q)) == array_queue_contents(*old(q)).subrange(
                1,
                array_queue_contents(*old(q)).len() as int,
            ),
            None => array_queue_contents(*old(q)).len() == 0 && array_queue_contents(*final(q))
                == array_queue_contents(*old(q)),
        },
{
    q.pop()
}

/// Relies on crossbeam_queue::ArrayQueue::is_empty: whether the queue
/// holds no item.
#[verifier::external_body]
fn queue_is_empty(q: &ArrayQueue<DeliverPacket>) -> (r: bool)
    ensures
        r == (array_queue_contents(*q).len() == 0),
{
    q.is_empty()
}

/// Relies on crossbeam_queue::ArrayQueue::len: how many items the queue
/// holds.
#[verifier::external_body]
fn queue_len(q: &ArrayQueue<DeliverPacket>) -> (r: usize)
    ensures
        r == array_queue_contents(*q).len(),
{
    q.len()
}

/// Bounded multi-producer multi-consumer lock-less FIFO queue; wait-free
/// when used with a single producer and a single consumer.
#[derive(Debug)]
pub struct WaitfreeArrayQueue {
    pub queue: ArrayQueue<DeliverPacket>,
}

impl WaitfreeArrayQueue {
    /// The packets queued, head first.
    pub open spec fn spec_contents(self) -> Seq<DeliverPacket> {
        array_queue_contents(self.queue)
    }

    pub open spec fn spec_capacity(self) -> nat {
        array_queue_capacity(self.queue)
    }

    pub fn new(num_slots: usize) -> (r: WaitfreeArrayQueue)
        requires
            0 < num_slots <= usize::MAX / 2,
        ensures
            r.spec_contents() == Seq::<DeliverPacket>::empty(),
            r.spec_capacity() == num_slots,
    {
        WaitfreeArrayQueue { queue: queue_new(num_slots) }
    }

    /// Appends at the tail; hands the item back exactly when the queue is
    /// full.
    pub fn push(&mut self, item: DeliverPacket) -> (r: Result<(), Error>)
        ensures
            final(self).spec_capacity() == old(self).spec_capacity(),
            match r {
                Ok(()) => old(self).spec_contents().len() < old(self).spec_capacity() && final(self).spec_contents() == old(self).spec_contents().push(item),
                Err(Error::NoSlotAvailable { item: it }) => it == item && old(self).spec_contents().len() == old(self).spec_capacity() && final(self).spec_contents() == old(self).spec_contents(),
            },
    {
        match queue_push(&mut self.queue, item) {
            Ok(()) => Ok(()),
            Err(item) => Err(Error::NoSlotAvailable { item }),
        }
    }

    /// Takes the head; `None` exactly when the queue is empty.
    pub fn pop(&mut self) -> (r: Option<DeliverPacket>)
        ensures
            final(self).spec_capacity() == old(self).spec_capacity(),
            match r {
                Some(item) => old(self).spec_contents().len() > 0 && item == old(self).spec_contents()[0] && final(self).spec_contents() == old(self).spec_contents().subrange(1, old(self).spec_contents().len() as int),
                None => old(self).spec_contents().len() == 0 && final(self).spec_contents() == old(self).spec_contents(),
            },
    {
        queue_pop(&mut self.queue)
    }

    pub fn is_empty(&self) -> (r: bool)
        ensures
            r == (self.spec_contents().len() == 0),
    {
        queue_is_empty(&self.queue)
    }

    pub fn len(&self) -> (r: usize)
        ensures
            r == self.spec_contents().len(),
    {
        queue_len(&self.queue)
    }
}

} // verus!
