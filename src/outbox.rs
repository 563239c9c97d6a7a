//! A connection's bounded outbound queue: enqueueing never blocks, and a
//! message that finds the queue full is dropped.
use vstd::prelude::*;

use crate::protocol::S2CMessage;

verus! {

/// Bounded FIFO of messages waiting to be written to one connection.
pub struct Outbox {
    items: Vec<S2CMessage>,
    capacity: usize,
}

impl View for Outbox {
    type V = Seq<S2CMessage>;

    closed spec fn view(&self) -> Seq<S2CMessage> {
        self.items@
    }
}

impl Outbox {
    pub closed spec fn spec_capacity(&self) -> nat {
        self.capacity as nat
    }

    pub open spec fn wf(&self) -> bool {
        self@.len() <= self.spec_capacity()
    }

    pub open spec fn is_full(&self) -> bool {
        self@.len() >= self.spec_capacity()
    }

    /// The queue after offering `m`: appended unless full.
    pub open spec fn offered(&self, m: S2CMessage) -> Seq<S2CMessage> {
        if self.is_full() {
            self@
        } else {
            self@.push(m)
        }
    }

    pub fn new(capacity: usize) -> (r: Outbox)
        ensures
            r@ == Seq::<S2CMessage>::empty(),
            r.spec_capacity() == capacity,
            r.wf(),
    {
        Outbox { items: Vec::new(), capacity }
    }

    pub fn capacity(&self) -> (r: usize)
        ensures
            r == self.spec_capacity(),
    {
        self.capacity
    }

    pub fn len(&self) -> (r: usize)
        ensures
            r == self@.len(),
    {
        self.items.len()
    }

    /// Enqueues `m` unless the queue is full; returns whether it was kept.
    pub fn try_send(&mut self, m: S2CMessage) -> (r: bool)
        ensures
            r == !old(self).is_full(),
            final(self)@ == old(self).offered(m),
            final(self).spec_capacity() == old(self).spec_capacity(),
    {
        if self.items.len() < self.capacity {
            self.items.push(m);
            true
        } else {
            false
        }
    }

    /// Removes and returns every queued message, oldest first.
    pub fn take_all(&mut self) -> (r: Vec<S2CMessage>)
        ensures
            r@ == old(self)@,
            final(self)@ == Seq::<S2CMessage>::empty(),
            final(self).spec_capacity() == old(self).spec_capacity(),
    {
        let mut taken: Vec<S2CMessage> = Vec::new();
        std::mem::swap(&mut taken, &mut self.items);
        taken
    }
}

} // verus!
