//! The producer's operations as sequences of single accesses.
//!
//! Each type here says where an operation stands, by the access to the shared
//! state that it makes next. Between two accesses the consumer may do anything
//! that it is allowed to do.

use crate::atomic_waker::delivered;
use crate::atomic_waker::Registration;
use crate::atomic_waker::Waking;
use crate::parking::Leave;
use crate::parking::ParkingState;
use crate::parking::Readiness;
use crate::parking::Signal;
use crate::producer::TrySendError;
use crate::state::State;
use std::task::Waker;
use vstd::prelude::*;

verus! {

/// Where the publication of staged values stands.
pub enum Publish {
    /// Publish that many staged values.
    Store(usize),
    /// Wake the consumer if it has asked for that.
    Signal(Signal),
    Done,
}

/// Where a push stands.
pub enum Push<T> {
    /// Look whether the consumer is there.
    Alive(T),
    /// The buffer seems full: look at the consumer's counter.
    Read(T),
    /// The buffer is full: look once more whether the consumer is there.
    AliveAgain(T),
    /// Write to the slot.
    Stage(T),
    Publish(Publish),
    Done(Result<(), TrySendError<T>>),
}

/// Where a producer that looks for free slots stands.
pub enum WritePoll {
    /// Look at the consumer's counter.
    Read(Waker),
    /// Look whether the consumer is there.
    Alive(Waker),
    /// Store the waker.
    Park(Registration),
    /// Ask to be woken.
    Raise,
    /// Look at the consumer's counter once more.
    ReadAgain,
    /// Look once more whether the consumer is there.
    AliveAgain,
    /// There is no need to wait: take back the request to be woken.
    Lower(Readiness),
    Done(Readiness),
}

impl<T> State<T> {
    /// The state after `values` have been published.
    pub open spec fn stored(self, values: Seq<T>, post: State<T>) -> bool {
        &&& post == (State { sent: self.sent + values, slots: post.slots, ..self })
        &&& self.keeps_slots(values.len() as int, post)
    }

    /// The slots of the queue and those beyond the next `n` that the producer
    /// may fill are the same as before.
    pub open spec fn keeps_slots(self, n: int, post: State<T>) -> bool {
        &&& forall|k: int|
            self.taken <= k < self.sent.len() ==> #[trigger] post.slot(k) == self.slot(k)
        &&& forall|k: int|
            self.sent.len() + n <= k < self.sent.len() + self.capacity ==> #[trigger] post.slot(k)
                == self.slot(k)
    }

    /// The state after `values` have been published and the consumer has been
    /// signalled.
    pub open spec fn published(self, values: Seq<T>, post: State<T>) -> bool {
        &&& post == (State {
            sent: self.sent + values,
            slots: post.slots,
            consumer: self.consumer.signalled(),
            due: delivered(self.due, self.consumer.due_on_signal()),
            ..self
        })
        &&& self.keeps_slots(values.len() as int, post)
    }

    /// The state after `value` has been staged in the next slot.
    pub open spec fn staged_next(self, value: T, post: State<T>) -> bool {
        &&& post.same_but_slots(self)
        &&& post.slot(self.sent.len() as int).staged() == Some(value)
        &&& self.keeps_slots(1, post)
    }

    /// The access that `at` makes next takes the state to `post`.
    pub open spec fn publish_access(self, at: Publish, post: State<T>) -> bool {
        match at {
            Publish::Store(n) => self.stored(self.staged(n as int), post),
            Publish::Signal(Signal::Wake(Waking::Deliver(w))) => post == (State {
                due: delivered(self.due, w),
                ..self
            }),
            Publish::Signal(signal) => post == (State {
                consumer: self.consumer.after_signal(signal),
                ..self
            }),
            Publish::Done => post == self,
        }
    }

    /// Where a publication stands after the access that `at` makes next.
    pub open spec fn next_publish(self, at: Publish) -> Publish {
        match at {
            Publish::Store(_) => Publish::Signal(Signal::Check),
            Publish::Signal(Signal::Wake(Waking::Deliver(_))) => Publish::Done,
            Publish::Signal(signal) => Publish::Signal(self.consumer.next_signal(signal)),
            Publish::Done => Publish::Done,
        }
    }

    /// What holds at `at` of a publication of `values` that began in the state
    /// `self` and that nothing has interrupted.
    pub open spec fn publish_alone(self, n: int, at: Publish, now: State<T>) -> bool {
        let values = self.staged(n);
        match at {
            Publish::Store(m) => m == n && now == self,
            Publish::Signal(signal) => {
                &&& self.keeps_slots(n, now)
                &&& self.consumer.signal_alone(signal, now.consumer)
                &&& now == (State {
                    sent: self.sent + values,
                    slots: now.slots,
                    consumer: now.consumer,
                    ..self
                })
            },
            Publish::Done => self.published(values, now),
        }
    }

    /// The access that `at` makes next takes the state to `post`.
    pub open spec fn push_access(self, at: Push<T>, post: State<T>) -> bool {
        match at {
            Push::Stage(value) => self.staged_next(value, post),
            Push::Publish(publish) => self.publish_access(publish, post),
            _ => post == self,
        }
    }

    /// Where a push stands after the access that `at` makes next. `known_free`
    /// is the number of slots that the producer takes to be free without
    /// looking.
    pub open spec fn next_push(self, known_free: int, at: Push<T>) -> Push<T> {
        match at {
            Push::Alive(value) => if !self.consumer_alive {
                Push::Done(Err(TrySendError::Closed(value)))
            } else if known_free == 0 {
                Push::Read(value)
            } else {
                Push::Stage(value)
            },
            Push::Read(value) => if self.free() == 0 {
                Push::AliveAgain(value)
            } else {
                Push::Stage(value)
            },
            Push::AliveAgain(value) => if self.consumer_alive {
                Push::Done(Err(TrySendError::Full(value)))
            } else {
                Push::Done(Err(TrySendError::Closed(value)))
            },
            Push::Stage(_) => Push::Publish(Publish::Store(1)),
            Push::Publish(publish) => match self.next_publish(publish) {
                Publish::Done => Push::Done(Ok(())),
                next => Push::Publish(next),
            },
            Push::Done(res) => Push::Done(res),
        }
    }

    /// What holds at `at` of a push of `value` that began in the state `self`
    /// and that nothing has interrupted.
    pub open spec fn push_alone(self, value: T, at: Push<T>, now: State<T>) -> bool {
        match at {
            Push::Alive(v) => v == value && now == self,
            Push::Read(v) => v == value && now == self && self.consumer_alive,
            Push::AliveAgain(v) => v == value && now == self && self.consumer_alive && self.free()
                == 0,
            Push::Stage(v) => v == value && now == self && self.consumer_alive && self.free() > 0,
            Push::Publish(publish) => {
                &&& self.consumer_alive
                &&& self.free() > 0
                &&& match publish {
                    Publish::Store(n) => n == 1 && self.staged_next(value, now),
                    Publish::Signal(signal) => {
                        &&& self.keeps_slots(1, now)
                        &&& self.consumer.signal_alone(signal, now.consumer)
                        &&& now == (State {
                            sent: self.sent + seq![value],
                            slots: now.slots,
                            consumer: now.consumer,
                            ..self
                        })
                    },
                    Publish::Done => false,
                }
            },
            Push::Done(Ok(())) => {
                &&& self.consumer_alive
                &&& self.free() > 0
                &&& self.published(seq![value], now)
            },
            Push::Done(Err(TrySendError::Full(v))) => {
                &&& self.consumer_alive
                &&& self.free() == 0
                &&& v == value
                &&& now == self
            },
            Push::Done(Err(TrySendError::Closed(v))) => {
                &&& !self.consumer_alive
                &&& v == value
                &&& now == self
            },
        }
    }

    /// The state after the access that `at` makes next.
    pub open spec fn after_write_poll(self, at: WritePoll) -> State<T> {
        match at {
            WritePoll::Park(Registration::Deliver(w)) => State {
                due: delivered(self.due, w),
                ..self
            },
            WritePoll::Park(r) => State {
                producer: ParkingState {
                    cell: self.producer.cell.after_registration(r),
                    ..self.producer
                },
                ..self
            },
            WritePoll::Raise => State {
                producer: ParkingState { wake_pending: true, ..self.producer },
                ..self
            },
            WritePoll::Lower(_) => State {
                producer: ParkingState { wake_pending: false, ..self.producer },
                ..self
            },
            _ => self,
        }
    }

    /// Where a producer that looks for `min` free slots stands after the access
    /// that `at` makes next.
    pub open spec fn next_write_poll(self, min: int, at: WritePoll) -> WritePoll {
        match at {
            WritePoll::Read(w) => if self.free() >= min {
                WritePoll::Done(Readiness::Ready)
            } else {
                WritePoll::Alive(w)
            },
            WritePoll::Alive(w) => if self.consumer_alive {
                WritePoll::Park(Registration::Claim(w))
            } else {
                WritePoll::Done(Readiness::Closed)
            },
            WritePoll::Park(Registration::Deliver(_)) => WritePoll::Raise,
            WritePoll::Park(r) => WritePoll::Park(self.producer.cell.next_registration(r)),
            WritePoll::Raise => WritePoll::ReadAgain,
            WritePoll::ReadAgain => if self.free() >= min {
                WritePoll::Lower(Readiness::Ready)
            } else {
                WritePoll::AliveAgain
            },
            WritePoll::AliveAgain => if self.consumer_alive {
                WritePoll::Done(Readiness::Pending)
            } else {
                WritePoll::Lower(Readiness::Closed)
            },
            WritePoll::Lower(readiness) => WritePoll::Done(readiness),
            WritePoll::Done(readiness) => WritePoll::Done(readiness),
        }
    }

    /// What a producer that looks for `min` free slots is told.
    pub open spec fn writable(self, min: int) -> Readiness {
        if self.free() >= min {
            Readiness::Ready
        } else if self.consumer_alive {
            Readiness::Pending
        } else {
            Readiness::Closed
        }
    }

    /// The state after the producer has stored `waker` and asked to be woken.
    pub open spec fn producer_parked(self, waker: Waker) -> State<T> {
        State {
            producer: ParkingState {
                wake_pending: true,
                cell: self.producer.cell.registered(waker),
            },
            due: delivered(self.due, self.producer.cell.due_on_register(waker)),
            ..self
        }
    }

    /// What holds at `at` of a look for `min` free slots that began in the state
    /// `self` and that nothing has interrupted.
    pub open spec fn write_poll_alone(
        self,
        waker: Waker,
        min: int,
        at: WritePoll,
        now: State<T>,
    ) -> bool {
        match at {
            WritePoll::Read(w) => w == waker && now == self,
            WritePoll::Alive(w) => w == waker && now == self && self.free() < min,
            WritePoll::Park(r) => {
                &&& self.writable(min) is Pending
                &&& self.producer.cell.registration_alone(waker, r, now.producer.cell)
                &&& now == (State {
                    producer: ParkingState { cell: now.producer.cell, ..self.producer },
                    ..self
                })
            },
            WritePoll::Raise => {
                &&& self.writable(min) is Pending
                &&& now == (State {
                    producer: ParkingState {
                        cell: self.producer.cell.registered(waker),
                        ..self.producer
                    },
                    due: delivered(self.due, self.producer.cell.due_on_register(waker)),
                    ..self
                })
            },
            WritePoll::ReadAgain => self.writable(min) is Pending && now == self.producer_parked(
                waker,
            ),
            WritePoll::AliveAgain => self.writable(min) is Pending && now == self.producer_parked(
                waker,
            ),
            WritePoll::Lower(_) => false,
            WritePoll::Done(readiness) => readiness == self.writable(min) && now
                == if readiness is Pending {
                self.producer_parked(waker)
            } else {
                self
            },
        }
    }

    /// The state after the access that `at` makes next, when the producer
    /// leaves.
    pub open spec fn after_producer_leave(self, at: Leave) -> State<T> {
        match at {
            Leave::Clear => State { producer_alive: false, ..self },
            Leave::Wake(Waking::Deliver(w)) => State { due: delivered(self.due, w), ..self },
            Leave::Wake(w) => State {
                consumer: ParkingState { cell: self.consumer.cell.after_waking(w), ..self.consumer },
                ..self
            },
            Leave::Done => self,
        }
    }

    /// Where a producer that leaves stands after the access that `at` makes
    /// next.
    pub open spec fn next_producer_leave(self, at: Leave) -> Leave {
        match at {
            Leave::Clear => Leave::Wake(Waking::Claim),
            Leave::Wake(Waking::Deliver(_)) => Leave::Done,
            Leave::Wake(w) => Leave::Wake(self.consumer.cell.next_waking(w)),
            Leave::Done => Leave::Done,
        }
    }

    /// The state after the producer has left.
    pub open spec fn producer_left(self) -> State<T> {
        State {
            producer_alive: false,
            consumer: self.consumer.woken(),
            due: delivered(self.due, self.consumer.cell.due_on_wake()),
            ..self
        }
    }

    /// What holds at `at` of a producer that began to leave in the state `self`
    /// and that nothing has interrupted.
    pub open spec fn producer_leave_alone(self, at: Leave, now: State<T>) -> bool {
        match at {
            Leave::Clear => now == self,
            Leave::Wake(w) => {
                &&& self.consumer.cell.waking_alone(w, now.consumer.cell)
                &&& now == (State {
                    producer_alive: false,
                    consumer: ParkingState { cell: now.consumer.cell, ..self.consumer },
                    ..self
                })
            },
            Leave::Done => now == self.producer_left(),
        }
    }
}

impl Publish {
    /// Bound on the number of steps still to be made.
    pub open spec fn rank(self) -> int {
        match self {
            Publish::Store(_) => 7,
            Publish::Signal(signal) => signal.rank(),
            Publish::Done => 0,
        }
    }

    /// What the producer relies on at this point: the slots that it is about to
    /// publish are its own, and they are written.
    pub open spec fn backed<T>(self, known_free: int, s: State<T>) -> bool {
        match self {
            Publish::Store(n) => n <= known_free && s.is_staged(n as int),
            _ => true,
        }
    }
}

impl<T> Push<T> {
    /// Bound on the number of steps still to be made.
    pub open spec fn rank(self) -> int {
        match self {
            Push::Alive(_) => 11,
            Push::Read(_) => 10,
            Push::AliveAgain(_) => 9,
            Push::Stage(_) => 9,
            Push::Publish(publish) => 1 + publish.rank(),
            Push::Done(_) => 0,
        }
    }

    /// What the producer relies on at this point: the slot is its own.
    pub open spec fn backed(self, known_free: int, s: State<T>) -> bool {
        match self {
            Push::Stage(_) => known_free > 0,
            Push::Publish(publish) => publish.backed(known_free, s),
            _ => true,
        }
    }
}

impl WritePoll {
    /// Bound on the number of steps still to be made.
    pub open spec fn rank(self) -> int {
        match self {
            WritePoll::Read(_) => 12,
            WritePoll::Alive(_) => 11,
            WritePoll::Park(r) => 4 + r.rank(),
            WritePoll::Raise => 4,
            WritePoll::ReadAgain => 3,
            WritePoll::AliveAgain => 2,
            WritePoll::Lower(_) => 1,
            WritePoll::Done(_) => 0,
        }
    }
}

} // verus!
