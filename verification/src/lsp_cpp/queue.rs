//! Bounded admission for in-flight backend requests.
//!
//! A request takes a [`Slot`] before it goes to the backend and gives it back
//! once its response is written. When every slot is taken the request is
//! refused at once; nothing queues up behind a slow backend.
use vstd::prelude::*;

verus! {

/// Default number of requests in flight.
pub const DEFAULT_QUEUE_DEPTH: usize = 16;

/// What a [`BoundedQueue`] holds.
pub struct QueueView {
    pub capacity: nat,
    pub in_flight: nat,
}

/// What holds of a queue at all times.
pub open spec fn queue_inv(q: QueueView) -> bool {
    0 < q.capacity && q.in_flight <= q.capacity
}

/// The queue after an attempt to take a slot, and whether it succeeded.
pub open spec fn acquire_step(q: QueueView) -> (QueueView, bool) {
    if q.in_flight >= q.capacity {
        (q, false)
    } else {
        (QueueView { in_flight: q.in_flight + 1, ..q }, true)
    }
}

/// The queue after a slot came back.
pub open spec fn release_step(q: QueueView) -> QueueView {
    QueueView { in_flight: if q.in_flight > 0 { (q.in_flight - 1) as nat } else { 0 }, ..q }
}

/// Admission counter with a fixed capacity.
#[derive(Debug)]
pub struct BoundedQueue {
    capacity: usize,
    in_flight: usize,
}

/// Admission of one request. It cannot be copied: a copy would count twice.
#[derive(Debug)]
pub struct Slot {
    taken: (),
}

impl View for BoundedQueue {
    type V = QueueView;

    closed spec fn view(&self) -> QueueView {
        QueueView { capacity: self.capacity as nat, in_flight: self.in_flight as nat }
    }
}

impl BoundedQueue {
    /// A queue with no request in flight. A capacity of zero makes no sense.
    pub fn new(capacity: usize) -> (queue: Self)
        requires
            capacity > 0,
        ensures
            queue@ == (QueueView { capacity: capacity as nat, in_flight: 0 }),
            queue_inv(queue@),
    {
        BoundedQueue { capacity, in_flight: 0 }
    }

    /// Takes a slot, or returns `None` when all are taken.
    pub fn try_acquire(&mut self) -> (slot: Option<Slot>)
        ensures
            (final(self)@, slot is Some) == acquire_step(old(self)@),
            queue_inv(old(self)@) ==> queue_inv(final(self)@),
    {
        if self.in_flight >= self.capacity {
            return None;
        }
        self.in_flight += 1;
        Some(Slot { taken: () })
    }

    /// Takes a slot back.
    pub fn release(&mut self, slot: Slot)
        ensures
            final(self)@ == release_step(old(self)@),
            queue_inv(old(self)@) ==> queue_inv(final(self)@),
    {
        self.in_flight = self.in_flight.saturating_sub(1);
    }

    /// Number of slots taken.
    pub fn in_flight(&self) -> (n: usize)
        ensures
            n == self@.in_flight,
    {
        self.in_flight
    }

    /// Number of slots there are.
    pub fn capacity(&self) -> (n: usize)
        ensures
            n == self@.capacity,
    {
        self.capacity
    }
}

/// The queue after a burst of attempts, and how many of them got a slot.
pub open spec fn burst(q: QueueView, attempts: nat) -> (QueueView, nat)
    decreases attempts,
{
    if attempts == 0 {
        (q, 0)
    } else {
        let (before, admitted) = burst(q, (attempts - 1) as nat);
        let (after, ok) = acquire_step(before);
        (after, if ok { admitted + 1 } else { admitted })
    }
}

/// A burst on a queue admits exactly as many requests as there are free slots,
/// and never takes the queue over its capacity.
pub proof fn law_burst_admits_free_slots(q: QueueView, attempts: nat)
    requires
        queue_inv(q),
    ensures
        queue_inv(burst(q, attempts).0),
        burst(q, attempts).0.capacity == q.capacity,
        burst(q, attempts).0.in_flight == q.in_flight + burst(q, attempts).1,
        burst(q, attempts).1 == if attempts <= q.capacity - q.in_flight {
            attempts as int
        } else {
            q.capacity - q.in_flight
        },
    decreases attempts,
{
    if attempts > 0 {
        law_burst_admits_free_slots(q, (attempts - 1) as nat);
    }
}

/// Giving a slot back undoes taking it, and frees a place for the next request.
pub proof fn law_release_undoes_acquire(q: QueueView)
    requires
        queue_inv(q),
    ensures
        acquire_step(q).1 ==> release_step(acquire_step(q).0) == q,
        q.in_flight > 0 ==> acquire_step(release_step(q)) == (q, true),
{
}

} // verus!
