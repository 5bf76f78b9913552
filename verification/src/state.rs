//! The state that both halves of the channel share, as a mathematical value.

use crate::parking::ParkingState;
use crate::slot::Slot;
use std::task::Waker;
use vstd::arithmetic::power2::is_pow2;
use vstd::prelude::*;

verus! {

/// What the shared part of a channel holds.
///
/// Elements are numbered in the order in which they are published, and the
/// element number `k` passes through the slot `k % capacity`.
pub struct State<T> {
    /// Number of slots.
    pub capacity: int,
    pub slots: Seq<Slot<T>>,
    /// Every element ever published, oldest first.
    pub sent: Seq<T>,
    /// How many elements the consumer has moved out of their slots.
    pub taken: int,
    /// How many slots the consumer has handed back to the producer.
    pub freed: int,
    pub producer_alive: bool,
    pub consumer_alive: bool,
    /// Where the producer waits.
    pub producer: ParkingState,
    /// Where the consumer waits.
    pub consumer: ParkingState,
    /// Wakers that are due, oldest first.
    pub due: Seq<Waker>,
}

/// The slot of a ring through which element number `k` passes.
pub open spec fn slot_of<T>(slots: Seq<Slot<T>>, capacity: int, k: int) -> Slot<T> {
    slots[k % capacity]
}

impl<T> State<T> {
    /// The slot through which element number `k` passes.
    #[verifier::inline]
    pub open spec fn slot(self, k: int) -> Slot<T> {
        slot_of(self.slots, self.capacity, k)
    }

    /// The elements that are queued, oldest first.
    pub open spec fn queue(self) -> Seq<T> {
        self.sent.skip(self.taken)
    }

    /// A channel to which nothing has happened yet.
    pub open spec fn fresh(capacity: int) -> State<T> {
        State {
            capacity,
            slots: Seq::new(capacity as nat, |i: int| Slot::<T>::Vacant),
            sent: Seq::empty(),
            taken: 0,
            freed: 0,
            producer_alive: true,
            consumer_alive: true,
            producer: ParkingState::fresh(),
            consumer: ParkingState::fresh(),
            due: Seq::empty(),
        }
    }

    /// How many elements are queued.
    pub open spec fn available(self) -> int {
        self.sent.len() - self.taken
    }

    /// How many slots the producer may fill.
    pub open spec fn free(self) -> int {
        self.capacity - (self.sent.len() - self.freed)
    }

    /// The slots of the queued elements are live, and no others are.
    pub open spec fn valid(self) -> bool {
        &&& is_pow2(self.capacity)
        &&& 0 < self.capacity <= crate::counter::max_capacity()
        &&& self.slots.len() == self.capacity
        &&& 0 <= self.freed <= self.taken <= self.sent.len() <= self.freed + self.capacity
        &&& forall|k: int|
            self.taken <= k < self.sent.len() ==> (#[trigger] self.slot(k)).live() == Some(
                self.sent[k],
            )
        &&& forall|k: int|
            self.sent.len() <= k < self.taken + self.capacity ==> (#[trigger] self.slot(k)).live()
                is None
    }

    /// The values staged in the next `n` slots that the producer may fill.
    pub open spec fn staged(self, n: int) -> Seq<T> {
        Seq::new(n as nat, |i: int| self.slot(self.sent.len() + i).staged().unwrap())
    }

    /// The next `n` slots that the producer may fill all hold a staged value.
    pub open spec fn is_staged(self, n: int) -> bool {
        forall|k: int|
            self.sent.len() <= k < self.sent.len() + n ==> (#[trigger] self.slot(k)).staged()
                is Some
    }

    /// The state after the wakers that are due have been handed out.
    pub open spec fn due_taken(self) -> State<T> {
        State { due: Seq::empty(), ..self }
    }

    /// The state after all queued elements have been dropped in their slots.
    pub open spec fn drained(self, post: State<T>) -> bool {
        &&& post == (State { taken: self.sent.len() as int, slots: post.slots, ..self })
        &&& forall|k: int|
            self.taken <= k < self.sent.len() ==> #[trigger] post.slot(k) == Slot::<T>::Vacant
        &&& forall|k: int|
            self.sent.len() <= k < self.freed + self.capacity ==> #[trigger] post.slot(k)
                == self.slot(k)
    }

    /// The state without the contents of the slots.
    pub open spec fn same_but_slots(self, other: State<T>) -> bool {
        self == (State { slots: self.slots, ..other })
    }
}

/// What the producer may do to the shared state, and nothing else: append to
/// what was sent, write to slots outside of the queue, signal the consumer,
/// wait, and leave for good.
pub open spec fn producer_step<T>(pre: State<T>, post: State<T>) -> bool {
    &&& post.capacity == pre.capacity
    &&& post.taken == pre.taken
    &&& post.freed == pre.freed
    &&& post.consumer_alive == pre.consumer_alive
    &&& pre.sent.is_prefix_of(post.sent)
    &&& forall|k: int|
        pre.taken <= k < pre.sent.len() ==> #[trigger] post.slot(k) == pre.slot(k)
    &&& post.producer_alive ==> pre.producer_alive
    &&& !pre.producer_alive ==> post.sent == pre.sent
    &&& pre.due.is_prefix_of(post.due)
}

/// Writing to slots outside of the queue is a step of the producer.
pub broadcast proof fn lemma_filling_is_a_step<T>(pre: State<T>, post: State<T>)
    requires
        #[trigger] post.same_but_slots(pre),
        forall|k: int|
            pre.taken <= k < pre.sent.len() ==> #[trigger] post.slot(k) == pre.slot(k),
    ensures
        #[trigger] producer_step(pre, post),
{
    assert(pre.sent.is_prefix_of(post.sent));
    assert(pre.due.is_prefix_of(post.due));
}

/// What the consumer may do to the shared state, and nothing else: take
/// elements from the head of the queue, hand their slots back, signal the
/// producer, wait, and leave for good.
pub open spec fn consumer_step<T>(pre: State<T>, post: State<T>) -> bool {
    &&& post.capacity == pre.capacity
    &&& post.sent == pre.sent
    &&& pre.taken <= post.taken
    &&& pre.freed <= post.freed
    &&& post.producer_alive == pre.producer_alive
    &&& forall|k: int|
        post.taken <= k < pre.freed + pre.capacity ==> #[trigger] post.slot(k) == pre.slot(k)
    &&& post.consumer_alive ==> pre.consumer_alive
    &&& !pre.consumer_alive ==> post.taken == pre.taken && post.freed == pre.freed
    &&& pre.due.is_prefix_of(post.due)
}

} // verus!
