//! The consumer's operations as sequences of single accesses.
//!
//! Each type here says where an operation stands, by the access to the shared
//! state that it makes next. Between two accesses the producer may do anything
//! that it is allowed to do.

use crate::atomic_waker::delivered;
use crate::atomic_waker::Registration;
use crate::atomic_waker::Waking;
use crate::consumer::TryRecvError;
use crate::parking::Leave;
use crate::parking::ParkingState;
use crate::parking::Readiness;
use crate::parking::Signal;
use crate::slot::Slot;
use crate::state::State;
use std::task::Waker;
use vstd::arithmetic::div_mod::lemma_mod_add_multiples_vanish;
use vstd::prelude::*;

verus! {

/// Where the return of emptied slots stands.
pub enum HandBack {
    /// Hand the emptied slots back to the producer.
    Store,
    /// Wake the producer if it has asked for that.
    Signal(Signal),
    Done,
}

/// Where a pop stands.
///
/// Whether the producer is there is looked up before its counter. If it is
/// found gone, the counter seen afterwards is final, so that no element is
/// missed.
pub enum Pop<T> {
    /// The queue seems empty: look whether the producer is there.
    Alive,
    /// Look at the producer's counter.
    Write(bool),
    /// Take the element out of its slot.
    Take,
    HandBack(T, HandBack),
    Done(Result<T, TryRecvError>),
}

/// Where a consumer that looks for elements stands.
///
/// As in a pop, whether the producer is there is looked up before its counter.
pub enum ReadPoll {
    /// Look whether the producer is there.
    Alive(Waker),
    /// Look at the producer's counter.
    Write(Waker, bool),
    /// Store the waker.
    Park(Registration),
    /// Ask to be woken.
    Raise,
    /// Look once more whether the producer is there.
    AliveAgain,
    /// Look at the producer's counter once more.
    WriteAgain(bool),
    /// There is no need to wait: take back the request to be woken.
    Lower(Readiness),
    Done(Readiness),
}

/// What a consumer that looks for `min` elements is told when there are
/// `available` and the producer was there or not.
pub open spec fn readiness_to_read(available: int, min: int, alive: bool) -> Readiness {
    if available >= min || (available > 0 && !alive) {
        Readiness::Ready
    } else if alive {
        Readiness::Pending
    } else {
        Readiness::Closed
    }
}

impl<T> State<T> {
    /// The first `n` slots of the queue are vacant, and the others are the same
    /// as before.
    pub open spec fn vacates_slots(self, n: int, post: State<T>) -> bool {
        &&& forall|k: int|
            self.taken <= k < self.taken + n ==> #[trigger] post.slot(k) == Slot::<T>::Vacant
        &&& forall|k: int|
            self.taken + n <= k < self.taken + self.capacity ==> #[trigger] post.slot(k)
                == self.slot(k)
    }

    /// The state after the first `n` queued elements have been taken.
    pub open spec fn emptied(self, n: int, post: State<T>) -> bool {
        &&& post == (State { taken: self.taken + n, slots: post.slots, ..self })
        &&& self.vacates_slots(n, post)
    }

    /// The state after the first `n` queued elements have been taken, their
    /// slots have been handed back and the producer has been signalled.
    pub open spec fn consumed(self, n: int, post: State<T>) -> bool {
        &&& post == (State {
            taken: self.taken + n,
            freed: self.taken + n,
            slots: post.slots,
            producer: self.producer.signalled(),
            due: delivered(self.due, self.producer.due_on_signal()),
            ..self
        })
        &&& self.vacates_slots(n, post)
    }

    /// The state after a read handle has committed `n` elements.
    pub open spec fn committed(self, n: int, post: State<T>) -> bool {
        if n == 0 {
            post == self
        } else {
            self.consumed(n, post)
        }
    }

    /// The state after the access that `at` makes next.
    pub open spec fn after_hand_back(self, at: HandBack) -> State<T> {
        match at {
            HandBack::Store => State { freed: self.taken, ..self },
            HandBack::Signal(Signal::Wake(Waking::Deliver(w))) => State {
                due: delivered(self.due, w),
                ..self
            },
            HandBack::Signal(signal) => State {
                producer: self.producer.after_signal(signal),
                ..self
            },
            HandBack::Done => self,
        }
    }

    /// Where the return of emptied slots stands after the access that `at`
    /// makes next.
    pub open spec fn next_hand_back(self, at: HandBack) -> HandBack {
        match at {
            HandBack::Store => HandBack::Signal(Signal::Check),
            HandBack::Signal(Signal::Wake(Waking::Deliver(_))) => HandBack::Done,
            HandBack::Signal(signal) => HandBack::Signal(self.producer.next_signal(signal)),
            HandBack::Done => HandBack::Done,
        }
    }

    /// The state after the emptied slots have been handed back and the producer
    /// has been signalled.
    pub open spec fn handed_back(self) -> State<T> {
        State {
            freed: self.taken,
            producer: self.producer.signalled(),
            due: delivered(self.due, self.producer.due_on_signal()),
            ..self
        }
    }

    /// What holds at `at` of a return of emptied slots that began in the state
    /// `self` and that nothing has interrupted.
    pub open spec fn hand_back_alone(self, at: HandBack, now: State<T>) -> bool {
        match at {
            HandBack::Store => now == self,
            HandBack::Signal(signal) => {
                &&& self.producer.signal_alone(signal, now.producer)
                &&& now == (State { freed: self.taken, producer: now.producer, ..self })
            },
            HandBack::Done => now == self.handed_back(),
        }
    }

    /// The access that `at` makes next takes the state to `post`.
    pub open spec fn pop_access(self, at: Pop<T>, post: State<T>) -> bool {
        match at {
            Pop::Take => self.emptied(1, post),
            Pop::HandBack(_, hand_back) => post == self.after_hand_back(hand_back),
            _ => post == self,
        }
    }

    /// Where a pop stands after the access that `at` makes next.
    pub open spec fn next_pop(self, at: Pop<T>) -> Pop<T> {
        match at {
            Pop::Alive => Pop::Write(self.producer_alive),
            Pop::Write(alive) => if self.available() > 0 {
                Pop::Take
            } else if alive {
                Pop::Done(Err(TryRecvError::Empty))
            } else {
                Pop::Done(Err(TryRecvError::Closed))
            },
            Pop::Take => Pop::HandBack(self.queue()[0], HandBack::Store),
            Pop::HandBack(value, hand_back) => match self.next_hand_back(hand_back) {
                HandBack::Done => Pop::Done(Ok(value)),
                next => Pop::HandBack(value, next),
            },
            Pop::Done(res) => Pop::Done(res),
        }
    }

    /// What holds at `at` of a pop that began in the state `self` and that
    /// nothing has interrupted.
    pub open spec fn pop_alone(self, at: Pop<T>, now: State<T>) -> bool {
        match at {
            Pop::Alive => now == self,
            Pop::Write(alive) => alive == self.producer_alive && now == self,
            Pop::Take => self.available() > 0 && now == self,
            Pop::HandBack(value, hand_back) => {
                &&& self.available() > 0
                &&& value == self.queue()[0]
                &&& self.vacates_slots(1, now)
                &&& match hand_back {
                    HandBack::Store => now == (State {
                        taken: self.taken + 1,
                        slots: now.slots,
                        ..self
                    }),
                    HandBack::Signal(signal) => {
                        &&& self.producer.signal_alone(signal, now.producer)
                        &&& now == (State {
                            taken: self.taken + 1,
                            freed: self.taken + 1,
                            slots: now.slots,
                            producer: now.producer,
                            ..self
                        })
                    },
                    HandBack::Done => false,
                }
            },
            Pop::Done(Ok(value)) => {
                &&& self.available() > 0
                &&& value == self.queue()[0]
                &&& self.consumed(1, now)
            },
            Pop::Done(Err(TryRecvError::Empty)) => {
                &&& self.available() == 0
                &&& self.producer_alive
                &&& now == self
            },
            Pop::Done(Err(TryRecvError::Closed)) => {
                &&& self.available() == 0
                &&& !self.producer_alive
                &&& now == self
            },
        }
    }

    /// The state after the access that `at` makes next.
    pub open spec fn after_read_poll(self, at: ReadPoll) -> State<T> {
        match at {
            ReadPoll::Park(Registration::Deliver(w)) => State {
                due: delivered(self.due, w),
                ..self
            },
            ReadPoll::Park(r) => State {
                consumer: ParkingState {
                    cell: self.consumer.cell.after_registration(r),
                    ..self.consumer
                },
                ..self
            },
            ReadPoll::Raise => State {
                consumer: ParkingState { wake_pending: true, ..self.consumer },
                ..self
            },
            ReadPoll::Lower(_) => State {
                consumer: ParkingState { wake_pending: false, ..self.consumer },
                ..self
            },
            _ => self,
        }
    }

    /// Where a consumer that looks for `min` elements stands after the access
    /// that `at` makes next.
    pub open spec fn next_read_poll(self, min: int, at: ReadPoll) -> ReadPoll {
        match at {
            ReadPoll::Alive(w) => ReadPoll::Write(w, self.producer_alive),
            ReadPoll::Write(w, alive) => match readiness_to_read(self.available(), min, alive) {
                Readiness::Pending => ReadPoll::Park(Registration::Claim(w)),
                readiness => ReadPoll::Done(readiness),
            },
            ReadPoll::Park(Registration::Deliver(_)) => ReadPoll::Raise,
            ReadPoll::Park(r) => ReadPoll::Park(self.consumer.cell.next_registration(r)),
            ReadPoll::Raise => ReadPoll::AliveAgain,
            ReadPoll::AliveAgain => ReadPoll::WriteAgain(self.producer_alive),
            ReadPoll::WriteAgain(alive) => match readiness_to_read(self.available(), min, alive) {
                Readiness::Pending => ReadPoll::Done(Readiness::Pending),
                readiness => ReadPoll::Lower(readiness),
            },
            ReadPoll::Lower(readiness) => ReadPoll::Done(readiness),
            ReadPoll::Done(readiness) => ReadPoll::Done(readiness),
        }
    }

    /// What a consumer that looks for `min` elements is told.
    pub open spec fn readable(self, min: int) -> Readiness {
        readiness_to_read(self.available(), min, self.producer_alive)
    }

    /// The state after the consumer has stored `waker` and asked to be woken.
    pub open spec fn consumer_parked(self, waker: Waker) -> State<T> {
        State {
            consumer: ParkingState {
                wake_pending: true,
                cell: self.consumer.cell.registered(waker),
            },
            due: delivered(self.due, self.consumer.cell.due_on_register(waker)),
            ..self
        }
    }

    /// What holds at `at` of a look for `min` elements that began in the state
    /// `self` and that nothing has interrupted.
    pub open spec fn read_poll_alone(
        self,
        waker: Waker,
        min: int,
        at: ReadPoll,
        now: State<T>,
    ) -> bool {
        match at {
            ReadPoll::Alive(w) => w == waker && now == self,
            ReadPoll::Write(w, alive) => w == waker && alive == self.producer_alive && now == self,
            ReadPoll::Park(r) => {
                &&& self.readable(min) is Pending
                &&& self.consumer.cell.registration_alone(waker, r, now.consumer.cell)
                &&& now == (State {
                    consumer: ParkingState { cell: now.consumer.cell, ..self.consumer },
                    ..self
                })
            },
            ReadPoll::Raise => {
                &&& self.readable(min) is Pending
                &&& now == (State {
                    consumer: ParkingState {
                        cell: self.consumer.cell.registered(waker),
                        ..self.consumer
                    },
                    due: delivered(self.due, self.consumer.cell.due_on_register(waker)),
                    ..self
                })
            },
            ReadPoll::AliveAgain => self.readable(min) is Pending && now == self.consumer_parked(
                waker,
            ),
            ReadPoll::WriteAgain(alive) => self.readable(min) is Pending && alive && now
                == self.consumer_parked(waker),
            ReadPoll::Lower(_) => false,
            ReadPoll::Done(readiness) => readiness == self.readable(min) && now
                == if readiness is Pending {
                self.consumer_parked(waker)
            } else {
                self
            },
        }
    }

    /// The state after the access that `at` makes next, when the consumer
    /// leaves.
    pub open spec fn after_consumer_leave(self, at: Leave) -> State<T> {
        match at {
            Leave::Clear => State { consumer_alive: false, ..self },
            Leave::Wake(Waking::Deliver(w)) => State { due: delivered(self.due, w), ..self },
            Leave::Wake(w) => State {
                producer: ParkingState { cell: self.producer.cell.after_waking(w), ..self.producer },
                ..self
            },
            Leave::Done => self,
        }
    }

    /// Where a consumer that leaves stands after the access that `at` makes
    /// next.
    pub open spec fn next_consumer_leave(self, at: Leave) -> Leave {
        match at {
            Leave::Clear => Leave::Wake(Waking::Claim),
            Leave::Wake(Waking::Deliver(_)) => Leave::Done,
            Leave::Wake(w) => Leave::Wake(self.producer.cell.next_waking(w)),
            Leave::Done => Leave::Done,
        }
    }

    /// The state after the consumer has left.
    pub open spec fn consumer_left(self) -> State<T> {
        State {
            consumer_alive: false,
            producer: self.producer.woken(),
            due: delivered(self.due, self.producer.cell.due_on_wake()),
            ..self
        }
    }

    /// What holds at `at` of a consumer that began to leave in the state `self`
    /// and that nothing has interrupted.
    pub open spec fn consumer_leave_alone(self, at: Leave, now: State<T>) -> bool {
        match at {
            Leave::Clear => now == self,
            Leave::Wake(w) => {
                &&& self.producer.cell.waking_alone(w, now.producer.cell)
                &&& now == (State {
                    consumer_alive: false,
                    producer: ParkingState { cell: now.producer.cell, ..self.producer },
                    ..self
                })
            },
            Leave::Done => now == self.consumer_left(),
        }
    }
}

impl HandBack {
    /// Bound on the number of steps still to be made.
    pub open spec fn rank(self) -> int {
        match self {
            HandBack::Store => 7,
            HandBack::Signal(signal) => signal.rank(),
            HandBack::Done => 0,
        }
    }
}

impl<T> Pop<T> {
    /// Bound on the number of steps still to be made.
    pub open spec fn rank(self) -> int {
        match self {
            Pop::Alive => 11,
            Pop::Write(_) => 10,
            Pop::Take => 9,
            Pop::HandBack(_, hand_back) => 1 + hand_back.rank(),
            Pop::Done(_) => 0,
        }
    }

    /// What the consumer relies on at this point: there is an element.
    pub open spec fn backed(self, known_len: int) -> bool {
        self is Take ==> known_len > 0
    }
}

impl ReadPoll {
    /// Bound on the number of steps still to be made.
    pub open spec fn rank(self) -> int {
        match self {
            ReadPoll::Alive(_) => 12,
            ReadPoll::Write(_, _) => 11,
            ReadPoll::Park(r) => 4 + r.rank(),
            ReadPoll::Raise => 4,
            ReadPoll::AliveAgain => 3,
            ReadPoll::WriteAgain(_) => 2,
            ReadPoll::Lower(_) => 1,
            ReadPoll::Done(_) => 0,
        }
    }
}

/// Taking `n` elements and then one more is taking `n + 1`.
pub proof fn law_take_one_more<T>(pre: State<T>, n: int, mid: State<T>, post: State<T>)
    requires
        pre.valid(),
        0 <= n < pre.available(),
        pre.emptied(n, mid),
        mid.emptied(1, post),
    ensures
        pre.emptied(n + 1, post),
{
    assert forall|k: int| pre.taken <= k < pre.taken + n + 1 implies #[trigger] post.slot(k)
        == Slot::<T>::Vacant by {
        if k < mid.taken {
            lemma_mod_add_multiples_vanish(k, pre.capacity);
            assert(mid.slot(k) == Slot::<T>::Vacant);
            assert(post.slot(k + pre.capacity) == mid.slot(k + pre.capacity));
        }
    }
    assert forall|k: int|
        pre.taken + n + 1 <= k < pre.taken + pre.capacity implies #[trigger] post.slot(k)
        == pre.slot(k) by {
        assert(mid.slot(k) == pre.slot(k));
    }
}

} // verus!
