//! Scancode ingestion: the bounded single-producer queue that carries raw
//! keyboard bytes from interrupt context to the consumer task.
//!
//! The interrupt handler must never block, so a byte arriving while the
//! queue is full is dropped; a successful push also raises the
//! notification that wakes the waiting consumer. The queue is modelled as
//! a vector with a fixed capacity; the real lock-free queue lives in the
//! unverified shell and mirrors these transitions.

use vstd::prelude::*;

verus! {

/// What became of one pushed scancode.
#[derive(Debug, Clone, Copy, PartialEq, Eq, Structural)]
pub enum ScancodePush {
    /// The byte was appended and the consumer was notified.
    Queued,
    /// The queue was full: the byte was dropped (never block in interrupt
    /// context; losing a keystroke is preferable to stalling).
    QueueFull,
}

/// Bounded queue of raw scancodes, oldest byte first.
pub struct ScancodeQueue {
    items: Vec<u8>,
    capacity: usize,
    consumer_notified: bool,
}

/// The queue contents after one byte is offered: appended when there is
/// room, dropped when the queue is full.
pub open spec fn spec_offer(q: Seq<u8>, capacity: nat, b: u8) -> Seq<u8> {
    if q.len() < capacity {
        q.push(b)
    } else {
        q
    }
}

/// The queue contents after a sequence of bytes is offered in order.
pub open spec fn spec_offer_all(q: Seq<u8>, capacity: nat, bs: Seq<u8>) -> Seq<u8>
    decreases bs.len(),
{
    if bs.len() == 0 {
        q
    } else {
        spec_offer_all(spec_offer(q, capacity, bs[0]), capacity, bs.drop_first())
    }
}

impl View for ScancodeQueue {
    type V = Seq<u8>;

    closed spec fn view(&self) -> Seq<u8> {
        self.items@
    }
}

impl ScancodeQueue {
    /// The fixed capacity the queue was created with.
    pub closed spec fn capacity(&self) -> nat {
        self.capacity as nat
    }

    /// Whether a push has signalled the consumer since the last take.
    pub closed spec fn is_notified(&self) -> bool {
        self.consumer_notified
    }

    /// The queue never holds more bytes than its capacity.
    pub closed spec fn wf(&self) -> bool {
        self.items@.len() <= self.capacity
    }

    /// An empty queue with the given capacity and no pending notification.
    pub fn new(capacity: usize) -> (q: ScancodeQueue)
        ensures
            q.wf(),
            q@ == Seq::<u8>::empty(),
            q.capacity() == capacity,
            !q.is_notified(),
    {
        let q = ScancodeQueue { items: Vec::new(), capacity, consumer_notified: false };
        assert(q@ =~= Seq::<u8>::empty());
        q
    }

    /// How many bytes are queued.
    pub fn len(&self) -> (r: usize)
        ensures
            r == self@.len(),
    {
        self.items.len()
    }

    /// Remove and return the oldest byte, if any. Bytes leave in exactly
    /// the order they were queued.
    pub fn pop_scancode(&mut self) -> (r: Option<u8>)
        requires
            old(self).wf(),
        ensures
            final(self).wf(),
            final(self).capacity() == old(self).capacity(),
            final(self).is_notified() == old(self).is_notified(),
            old(self)@.len() == 0 ==> r is None && final(self)@ == old(self)@,
            old(self)@.len() > 0 ==> r == Some(old(self)@[0]) && final(self)@ == old(
                self,
            )@.drop_first(),
    {
        if self.items.len() == 0 {
            None
        } else {
            let b = self.items.remove(0);
            assert(self.items@ =~= old(self)@.drop_first());
            Some(b)
        }
    }

    /// Consume the pending wake notification, reporting whether one was
    /// raised.
    pub fn take_notification(&mut self) -> (r: bool)
        ensures
            r == old(self).is_notified(),
            !final(self).is_notified(),
            final(self)@ == old(self)@,
            final(self).capacity() == old(self).capacity(),
            final(self).wf() == old(self).wf(),
    {
        let r = self.consumer_notified;
        self.consumer_notified = false;
        r
    }
}

/// Offer one scancode to the queue from interrupt context: append it and
/// notify the consumer when there is room, drop it when the queue is full.
pub fn add_scancode(queue: &mut ScancodeQueue, scancode: u8) -> (r: ScancodePush)
    requires
        old(queue).wf(),
    ensures
        final(queue).wf(),
        final(queue).capacity() == old(queue).capacity(),
        final(queue)@ == spec_offer(old(queue)@, old(queue).capacity(), scancode),
        r == ScancodePush::Queued <==> old(queue)@.len() < old(queue).capacity(),
        r == ScancodePush::Queued ==> final(queue).is_notified(),
        r == ScancodePush::QueueFull ==> final(queue).is_notified() == old(queue).is_notified(),
{
    if queue.items.len() < queue.capacity {
        queue.items.push(scancode);
        queue.consumer_notified = true;
        ScancodePush::Queued
    } else {
        ScancodePush::QueueFull
    }
}

/// Law: while the queue never overflows, ingestion loses nothing and keeps
/// order — after offering a burst of bytes to a queue with room for all of
/// them, the queue holds exactly its old contents followed by the burst,
/// so the consumer sees every byte exactly once, in producer order.
pub proof fn lemma_ingestion_exactly_once(q: Seq<u8>, capacity: nat, bs: Seq<u8>)
    requires
        q.len() + bs.len() <= capacity,
    ensures
        spec_offer_all(q, capacity, bs) == q + bs,
    decreases bs.len(),
{
    if bs.len() == 0 {
        assert(q + bs =~= q);
    } else {
        assert(spec_offer(q, capacity, bs[0]) == q.push(bs[0]));
        lemma_ingestion_exactly_once(q.push(bs[0]), capacity, bs.drop_first());
        assert(q.push(bs[0]) + bs.drop_first() =~= q + bs);
    }
}

} // verus!
