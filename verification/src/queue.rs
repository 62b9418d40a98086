//! A bounded FIFO queue between one producer and one consumer. This is the
//! pipeline's only coupling device: a full queue refuses further items, which
//! is what holds a fast producer back, and a closed, drained queue is the
//! end-of-stream signal.

use vstd::prelude::*;

verus! {

/// What one receive attempt yields.
pub enum Received<T> {
    /// The oldest buffered item.
    Item(T),
    /// Nothing buffered, but the producer may still send.
    Empty,
    /// Nothing buffered and the producer has closed the queue.
    Closed,
}

/// A FIFO channel of fixed capacity.
pub struct BoundedQueue<T> {
    items: Vec<T>,
    capacity: usize,
    closed: bool,
}

impl<T> View for BoundedQueue<T> {
    type V = Seq<T>;

    closed spec fn view(&self) -> Seq<T> {
        self.items@
    }
}

impl<T> BoundedQueue<T> {
    /// The fixed capacity the queue was created with.
    pub closed spec fn capacity(self) -> nat {
        self.capacity as nat
    }

    /// Whether the producer has closed the queue.
    pub closed spec fn is_closed(self) -> bool {
        self.closed
    }

    /// The buffer never holds more than the capacity.
    pub open spec fn wf(self) -> bool {
        self@.len() <= self.capacity()
    }

    /// A send can go through: the queue is open and has room.
    pub open spec fn can_send(self) -> bool {
        !self.is_closed() && self@.len() < self.capacity()
    }

    pub fn new(capacity: usize) -> (r: Self)
        requires
            capacity >= 1,
        ensures
            r@ == Seq::<T>::empty(),
            r.capacity() == capacity,
            !r.is_closed(),
            r.wf(),
    {
        BoundedQueue { items: Vec::new(), capacity, closed: false }
    }

    /// Accepts the item when the queue is open and below capacity; otherwise
    /// returns it to the caller and changes nothing. A producer that must
    /// deliver keeps the item and tries again once the consumer has drained —
    /// it cannot run ahead of a full queue.
    pub fn try_send(&mut self, t: T) -> (r: Result<(), T>)
        ensures
            final(self).capacity() == old(self).capacity(),
            final(self).is_closed() == old(self).is_closed(),
            old(self).wf() ==> final(self).wf(),
            match r {
                Ok(()) => old(self).can_send() && final(self)@ == old(self)@.push(t),
                Err(t2) => !old(self).can_send() && t2 == t && final(self)@ == old(self)@,
            },
    {
        if self.closed || self.items.len() >= self.capacity {
            Err(t)
        } else {
            self.items.push(t);
            Ok(())
        }
    }

    /// Hands out the oldest buffered item; with nothing buffered, reports
    /// `Closed` once the producer has closed, else `Empty`. Buffered items
    /// are drained before closure is reported.
    pub fn receive(&mut self) -> (r: Received<T>)
        ensures
            final(self).capacity() == old(self).capacity(),
            final(self).is_closed() == old(self).is_closed(),
            old(self).wf() ==> final(self).wf(),
            match r {
                Received::Item(t) => old(self)@.len() > 0 && t == old(self)@[0] && final(self)@
                    == old(self)@.drop_first(),
                Received::Empty => old(self)@.len() == 0 && !old(self).is_closed() && final(self)@
                    == old(self)@,
                Received::Closed => old(self)@.len() == 0 && old(self).is_closed() && final(self)@
                    == old(self)@,
            },
    {
        if self.items.len() > 0 {
            let t = self.items.remove(0);
            proof {
                assert(self.items@ =~= old(self)@.drop_first());
            }
            Received::Item(t)
        } else if self.closed {
            Received::Closed
        } else {
            Received::Empty
        }
    }

    /// Marks the end of the stream; the buffered items stay. Closing twice
    /// changes nothing more.
    pub fn close(&mut self)
        ensures
            final(self)@ == old(self)@,
            final(self).capacity() == old(self).capacity(),
            final(self).is_closed(),
            old(self).wf() ==> final(self).wf(),
    {
        self.closed = true;
    }
}

/// Backpressure bound: however the queue was used, a well-formed queue holds
/// at most its capacity, so a producer facing a consumer that never drains is
/// stopped after `capacity` items are in flight.
pub proof fn lemma_backpressure_bound<T>(q: BoundedQueue<T>)
    requires
        q.wf(),
    ensures
        q@.len() <= q.capacity(),
{
}

/// The same bound across a pair of queues in a row, as the pipeline wires
/// them: the records in flight never exceed the two capacities together,
/// however fast the producer is.
pub proof fn lemma_in_flight_bound<T>(q1: BoundedQueue<T>, q2: BoundedQueue<T>)
    requires
        q1.wf(),
        q2.wf(),
    ensures
        q1@.len() + q2@.len() <= q1.capacity() + q2.capacity(),
{
}

} // verus!
