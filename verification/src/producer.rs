//! Producer side of the channel.

use crate::atomic_waker::deliver;
use crate::atomic_waker::Registration;
use crate::atomic_waker::Waking;
use crate::consumer::keeps_consumer;
use crate::consumer::law_producer_keeps_consumer;
use crate::consumer::lemma_slots_keep_consumer;
use crate::counter::distance;
use crate::counter::lemma_distance;
use crate::counter::lemma_modulus;
use crate::counter::lemma_wrap_advance;
use crate::counter::wrap;
use crate::inner::refilled_as;
use crate::inner::run_before_wrap;
use crate::inner::Inner;
use crate::parking::Leave;
use crate::parking::Readiness;
use crate::parking::Signal;
use crate::slot::Slot;
use crate::state::consumer_step;
use crate::state::lemma_filling_is_a_step;
use crate::state::producer_step;
use crate::state::State;
use crate::write_steps::Publish;
use crate::write_steps::Push;
use crate::write_steps::WritePoll;
use core::marker::PhantomData;
use std::task::Waker;
use vstd::prelude::*;

verus! {

/// Producer half of the channel.
///
/// Everything that changes the channel takes `&mut self`, so that there is a
/// single producer. It leaves the channel with `close`.
pub struct Producer<T> {
    /// Producer's own counter, equal to the one last published.
    local_write: usize,
    /// Lower bound on the consumer's counter, refreshed when it claims that
    /// the buffer is full.
    cached_read: usize,
    elements: PhantomData<T>,
}

/// Reason a push failed. The unsent value is handed back.
#[derive(Debug, PartialEq, Eq)]
pub enum TrySendError<T> {
    /// Buffer full; the consumer has not freed enough space.
    Full(T),
    /// Consumer has been dropped.
    Closed(T),
}

impl<T> TrySendError<T> {
    pub fn message(&self) -> (message: &'static str)
        ensures
            message@ == match self {
                TrySendError::Full(_) => "channel full"@,
                TrySendError::Closed(_) => "channel closed"@,
            },
    {
        match self {
            TrySendError::Full(_) => "channel full",
            TrySendError::Closed(_) => "channel closed",
        }
    }
}

/// Whoever is the producer of the channel in `pre` is so in `post`, too, and
/// may still fill the slots that it takes to be free.
pub open spec fn keeps_producer<T>(pre: State<T>, post: State<T>) -> bool {
    forall|p: Producer<T>| #[trigger]
        p.attached(pre) ==> p.attached(post) && p.known_free(post) == p.known_free(pre)
}

/// Nothing that the consumer does takes the channel away from its producer.
pub proof fn law_consumer_keeps_producer<T>(pre: State<T>, post: State<T>)
    requires
        consumer_step(pre, post),
    ensures
        keeps_producer(pre, post),
{
}

/// Handing out the wakers that are due does not concern the producer.
pub proof fn law_due_keeps_producer<T>(s: State<T>)
    ensures
        keeps_producer(s, s.due_taken()),
{
}

/// A producer is part of its channel, and what it takes to be free is free.
pub proof fn law_known_free<T>(producer: Producer<T>, s: State<T>)
    requires
        producer.attached(s),
    ensures
        s.producer_alive,
        0 <= producer.known_free(s) <= s.free(),
{
}

impl<T> Producer<T> {
    /// This is the producer of that channel: its own counter is up to date,
    /// and the cached one does not promise slots that are not free.
    pub closed spec fn attached(self, s: State<T>) -> bool {
        &&& s.producer_alive
        &&& self.local_write == wrap(s.sent.len() as int)
        &&& s.sent.len() - s.freed <= distance(self.local_write, self.cached_read) <= s.capacity
    }

    /// How many slots are free according to the cached counter.
    pub closed spec fn known_free(self, s: State<T>) -> int {
        s.capacity - distance(self.local_write, self.cached_read)
    }

    pub(crate) fn new() -> (producer: Self)
        ensures
            forall|s: State<T>|
                s.sent.len() == 0 && s.freed == 0 && s.capacity > 0 && s.producer_alive
                    ==> #[trigger] producer.attached(s),
    {
        Producer { local_write: 0, cached_read: 0, elements: PhantomData }
    }

    /// Power-of-two slot count. May exceed the value passed to `channel`.
    #[inline]
    pub fn capacity(&self, inner: &Inner<T>) -> (capacity: usize)
        requires
            inner.wf(),
        ensures
            capacity == inner@.capacity,
    {
        inner.capacity()
    }

    /// Number of free slots, after a look at the consumer's counter.
    pub fn free(&mut self, inner: &Inner<T>) -> (free: usize)
        requires
            inner.wf(),
            old(self).attached(inner@),
        ensures
            free == inner@.free(),
            final(self).attached(inner@),
            final(self).known_free(inner@) == free,
    {
        self.refresh_cached_read(inner);
        self.cached_free(inner)
    }

    pub fn is_consumer_alive(&self, inner: &Inner<T>) -> (alive: bool)
        ensures
            alive == inner@.consumer_alive,
    {
        inner.is_consumer_alive()
    }

    /// Number of free slots according to the cached counter. There may be more.
    #[inline]
    pub fn cached_free(&self, inner: &Inner<T>) -> (free: usize)
        requires
            inner.wf(),
            self.attached(inner@),
        ensures
            free == self.known_free(inner@),
            free <= inner@.free(),
    {
        inner.capacity() - self.local_write.wrapping_sub(self.cached_read)
    }

    /// Looks at the consumer's counter.
    #[inline]
    pub fn refresh_cached_read(&mut self, inner: &Inner<T>)
        requires
            inner.wf(),
            old(self).attached(inner@),
        ensures
            final(self).attached(inner@),
            final(self).known_free(inner@) == inner@.free(),
    {
        self.cached_read = inner.load_read();
        proof {
            lemma_modulus();
            lemma_distance(inner@.sent.len() as int, inner@.freed);
        }
    }

    /// Makes the next access of a publication.
    pub fn publish_step(&mut self, inner: &mut Inner<T>, at: Publish) -> (next: Publish)
        requires
            old(inner).wf(),
            old(self).attached(old(inner)@),
            at.backed(old(self).known_free(old(inner)@), old(inner)@),
        ensures
            final(inner).wf(),
            final(self).attached(final(inner)@),
            next.backed(final(self).known_free(final(inner)@), final(inner)@),
            producer_step(old(inner)@, final(inner)@),
            keeps_consumer(old(inner)@, final(inner)@),
            old(inner)@.publish_access(at, final(inner)@),
            next == old(inner)@.next_publish(at),
            final(self).known_free(final(inner)@) == match at {
                Publish::Store(n) => old(self).known_free(old(inner)@) - n,
                _ => old(self).known_free(old(inner)@),
            },
    {
        let ghost pre = inner@;
        let next = match at {
            Publish::Store(n) => {
                let ghost len = inner@.sent.len() as int;
                let new_write: usize = self.local_write.wrapping_add(n);
                proof {
                    lemma_modulus();
                    lemma_wrap_advance(len, n);
                    lemma_distance(len + n, len);
                }
                inner.store_write(new_write);
                self.local_write = new_write;
                Publish::Signal(Signal::Check)
            },
            Publish::Signal(Signal::Wake(Waking::Deliver(w))) => {
                let (_parking, due) = inner.consumer_parking();
                deliver(due, w);
                Publish::Done
            },
            Publish::Signal(signal) => {
                let (parking, _due) = inner.consumer_parking();
                Publish::Signal(parking.signal_step(signal))
            },
            Publish::Done => Publish::Done,
        };
        proof {
            law_producer_keeps_consumer(pre, inner@);
        }
        next
    }

    /// Publishes the next `n` staged values, then wakes the consumer if it has
    /// asked for that.
    fn publish_write(&mut self, inner: &mut Inner<T>, n: usize)
        requires
            old(inner).wf(),
            old(self).attached(old(inner)@),
            n <= old(self).known_free(old(inner)@),
            old(inner)@.is_staged(n as int),
        ensures
            final(inner).wf(),
            final(self).attached(final(inner)@),
            producer_step(old(inner)@, final(inner)@),
            keeps_consumer(old(inner)@, final(inner)@),
            old(inner)@.published(old(inner)@.staged(n as int), final(inner)@),
            final(self).known_free(final(inner)@) == old(self).known_free(old(inner)@) - n,
    {
        let ghost pre = inner@;
        let ghost known = self.known_free(inner@);
        let mut at = Publish::Store(n);
        loop
            invariant
                pre == old(inner)@,
                inner.wf(),
                self.attached(inner@),
                at.backed(self.known_free(inner@), inner@),
                pre.producer_alive,
                pre.publish_alone(n as int, at, inner@),
                known == old(self).known_free(pre),
                self.known_free(inner@) == if at is Store {
                    known
                } else {
                    known - n
                },
            decreases at.rank(),
        {
            match at {
                Publish::Done => {
                    proof {
                        law_producer_keeps_consumer(pre, inner@);
                    }
                    return;
                },
                other => {
                    at = self.publish_step(inner, other);
                },
            }
        }
    }

    /// Makes the next access of a push.
    pub fn push_step(&mut self, inner: &mut Inner<T>, at: Push<T>) -> (next: Push<T>)
        requires
            old(inner).wf(),
            old(self).attached(old(inner)@),
            at.backed(old(self).known_free(old(inner)@), old(inner)@),
        ensures
            final(inner).wf(),
            final(self).attached(final(inner)@),
            next.backed(final(self).known_free(final(inner)@), final(inner)@),
            producer_step(old(inner)@, final(inner)@),
            keeps_consumer(old(inner)@, final(inner)@),
            old(inner)@.push_access(at, final(inner)@),
            next == old(inner)@.next_push(old(self).known_free(old(inner)@), at),
            final(self).known_free(final(inner)@) == match at {
                Push::Read(_) => old(inner)@.free(),
                Push::Publish(Publish::Store(n)) => old(self).known_free(old(inner)@) - n,
                _ => old(self).known_free(old(inner)@),
            },
    {
        let ghost pre = inner@;
        let next = match at {
            Push::Alive(value) => {
                if !self.is_consumer_alive(inner) {
                    Push::Done(Err(TrySendError::Closed(value)))
                } else if self.cached_free(inner) == 0 {
                    Push::Read(value)
                } else {
                    Push::Stage(value)
                }
            },
            Push::Read(value) => {
                self.refresh_cached_read(inner);
                if self.cached_free(inner) == 0 {
                    Push::AliveAgain(value)
                } else {
                    Push::Stage(value)
                }
            },
            Push::AliveAgain(value) => {
                if self.is_consumer_alive(inner) {
                    Push::Done(Err(TrySendError::Full(value)))
                } else {
                    Push::Done(Err(TrySendError::Closed(value)))
                }
            },
            Push::Stage(value) => {
                inner.stage(self.local_write, value);
                Push::Publish(Publish::Store(1))
            },
            Push::Publish(publish) => match self.publish_step(inner, publish) {
                Publish::Done => Push::Done(Ok(())),
                next => Push::Publish(next),
            },
            Push::Done(res) => Push::Done(res),
        };
        proof {
            law_producer_keeps_consumer(pre, inner@);
        }
        next
    }

    /// Pushes one element. Hands the value back on failure.
    ///
    /// Fails with `Closed` if the consumer has gone, whether there is space or
    /// not: there is no point in storing what nobody will read.
    pub fn try_push(&mut self, inner: &mut Inner<T>, value: T) -> (res: Result<
        (),
        TrySendError<T>,
    >)
        requires
            old(inner).wf(),
            old(self).attached(old(inner)@),
        ensures
            final(inner).wf(),
            final(self).attached(final(inner)@),
            producer_step(old(inner)@, final(inner)@),
            keeps_consumer(old(inner)@, final(inner)@),
            match res {
                Ok(()) => {
                    &&& old(inner)@.consumer_alive
                    &&& old(inner)@.free() > 0
                    &&& old(inner)@.published(seq![value], final(inner)@)
                    &&& final(self).known_free(final(inner)@) == if old(self).known_free(
                        old(inner)@,
                    ) == 0 {
                        old(inner)@.free() - 1
                    } else {
                        old(self).known_free(old(inner)@) - 1
                    }
                },
                Err(TrySendError::Full(v)) => {
                    &&& old(inner)@.consumer_alive
                    &&& old(inner)@.free() == 0
                    &&& v == value
                    &&& final(inner)@ == old(inner)@
                    &&& final(self).known_free(final(inner)@) == 0
                },
                Err(TrySendError::Closed(v)) => {
                    &&& !old(inner)@.consumer_alive
                    &&& v == value
                    &&& final(inner)@ == old(inner)@
                    &&& final(self).known_free(final(inner)@) == old(self).known_free(old(inner)@)
                },
            },
    {
        let ghost pre = inner@;
        let ghost first = self.known_free(inner@);
        let ghost known = if first == 0 {
            pre.free()
        } else {
            first
        };
        proof {
            law_known_free(*self, pre);
        }
        let mut at = Push::Alive(value);
        loop
            invariant
                pre == old(inner)@,
                inner.wf(),
                self.attached(inner@),
                at.backed(self.known_free(inner@), inner@),
                pre.producer_alive,
                pre.push_alone(value, at, inner@),
                first == old(self).known_free(pre),
                0 <= first <= pre.free(),
                known == if first == 0 {
                    pre.free()
                } else {
                    first
                },
                match at {
                    Push::Alive(_) => self.known_free(inner@) == first,
                    Push::Read(_) => self.known_free(inner@) == first && first == 0,
                    Push::AliveAgain(_) => self.known_free(inner@) == 0,
                    Push::Stage(_) => self.known_free(inner@) == known,
                    Push::Publish(Publish::Store(_)) => self.known_free(inner@) == known,
                    Push::Publish(_) => self.known_free(inner@) == known - 1,
                    Push::Done(Ok(())) => self.known_free(inner@) == known - 1,
                    Push::Done(Err(TrySendError::Full(_))) => self.known_free(inner@) == 0,
                    Push::Done(Err(TrySendError::Closed(_))) => self.known_free(inner@) == first,
                },
            decreases at.rank(),
        {
            match at {
                Push::Done(res) => {
                    proof {
                        law_producer_keeps_consumer(pre, inner@);
                    }
                    return res;
                },
                other => {
                    assert(other matches Push::Publish(Publish::Store(_)) ==> inner@.staged(1)
                        =~= seq![value]);
                    at = self.push_step(inner, other);
                },
            }
        }
    }

    /// Acquires a write handle on all slots that are free. Returns `None` if
    /// the buffer is full, and also if the consumer has gone
    /// (`is_consumer_alive` tells the two apart).
    pub fn try_bulk_write(&mut self, inner: &Inner<T>) -> (res: Option<WriteHandle<'_, T>>)
        requires
            inner.wf(),
            old(self).attached(inner@),
        ensures
            match res {
                Some(handle) => {
                    &&& inner@.consumer_alive
                    &&& inner@.free() > 0
                    &&& *final(handle.producer) == *final(self)
                    &&& handle.usable(inner@)
                    &&& handle.free == inner@.free()
                },
                None => {
                    &&& !inner@.consumer_alive || inner@.free() == 0
                    &&& final(self).attached(inner@)
                },
            },
    {
        if !self.is_consumer_alive(inner) {
            return None;
        }
        self.refresh_cached_read(inner);
        let free: usize = self.cached_free(inner);
        if free == 0 {
            return None;
        }
        Some(WriteHandle { producer: self, free })
    }

    /// Looks whether at least `min` slots are free.
    pub fn check_writable(&mut self, inner: &Inner<T>, min: usize) -> (readiness: Readiness)
        requires
            inner.wf(),
            old(self).attached(inner@),
            0 < min <= inner@.capacity,
        ensures
            final(self).attached(inner@),
            final(self).known_free(inner@) == inner@.free(),
            readiness == inner@.writable(min as int),
            readiness is Ready <==> inner@.capacity - (inner@.sent.len() - inner@.freed) >= min,
            readiness is Pending <==> inner@.consumer_alive && inner@.capacity - (inner@.sent.len()
                - inner@.freed) < min,
    {
        self.refresh_cached_read(inner);
        if self.cached_free(inner) >= min {
            return Readiness::Ready;
        }
        if !self.is_consumer_alive(inner) {
            return Readiness::Closed;
        }
        Readiness::Pending
    }

    /// A write handle on the slots that were free at the last look.
    pub fn write_handle(&mut self, inner: &Inner<T>) -> (handle: WriteHandle<'_, T>)
        requires
            inner.wf(),
            old(self).attached(inner@),
        ensures
            handle.usable(inner@),
            handle.free == old(self).known_free(inner@),
            *final(handle.producer) == *final(self),
    {
        let free: usize = self.cached_free(inner);
        WriteHandle { producer: self, free }
    }

    /// Makes the next access of a producer that looks for `min` free slots.
    pub fn poll_writable_step(
        &mut self,
        inner: &mut Inner<T>,
        min: usize,
        at: WritePoll,
    ) -> (next: WritePoll)
        requires
            old(inner).wf(),
            old(self).attached(old(inner)@),
        ensures
            final(inner).wf(),
            final(self).attached(final(inner)@),
            producer_step(old(inner)@, final(inner)@),
            keeps_consumer(old(inner)@, final(inner)@),
            final(inner)@ == old(inner)@.after_write_poll(at),
            next == old(inner)@.next_write_poll(min as int, at),
            at is Read || at is ReadAgain ==> final(self).known_free(final(inner)@)
                == old(inner)@.free(),
            !(at is Read || at is ReadAgain) ==> *final(self) == *old(self),
    {
        let ghost pre = inner@;
        let next = match at {
            WritePoll::Read(w) => {
                self.refresh_cached_read(inner);
                if self.cached_free(inner) >= min {
                    WritePoll::Done(Readiness::Ready)
                } else {
                    WritePoll::Alive(w)
                }
            },
            WritePoll::Alive(w) => {
                if self.is_consumer_alive(inner) {
                    WritePoll::Park(Registration::Claim(w))
                } else {
                    WritePoll::Done(Readiness::Closed)
                }
            },
            WritePoll::Park(Registration::Deliver(w)) => {
                let (_parking, due) = inner.producer_parking();
                deliver(due, w);
                WritePoll::Raise
            },
            WritePoll::Park(r) => {
                let (parking, _due) = inner.producer_parking();
                WritePoll::Park(parking.register_step(r))
            },
            WritePoll::Raise => {
                let (parking, _due) = inner.producer_parking();
                parking.set_wake_pending(true);
                WritePoll::ReadAgain
            },
            WritePoll::ReadAgain => {
                self.refresh_cached_read(inner);
                if self.cached_free(inner) >= min {
                    WritePoll::Lower(Readiness::Ready)
                } else {
                    WritePoll::AliveAgain
                }
            },
            WritePoll::AliveAgain => {
                if self.is_consumer_alive(inner) {
                    WritePoll::Done(Readiness::Pending)
                } else {
                    WritePoll::Lower(Readiness::Closed)
                }
            },
            WritePoll::Lower(readiness) => {
                let (parking, _due) = inner.producer_parking();
                parking.set_wake_pending(false);
                WritePoll::Done(readiness)
            },
            WritePoll::Done(readiness) => WritePoll::Done(readiness),
        };
        proof {
            law_producer_keeps_consumer(pre, inner@);
        }
        next
    }

    /// Looks whether at least `min` slots are free. If not, and the consumer is
    /// there, stores `waker` to be woken when the consumer frees slots or goes.
    pub fn poll_writable(&mut self, inner: &mut Inner<T>, waker: Waker, min: usize) -> (readiness:
        Readiness)
        requires
            old(inner).wf(),
            old(self).attached(old(inner)@),
        ensures
            final(inner).wf(),
            final(self).attached(final(inner)@),
            producer_step(old(inner)@, final(inner)@),
            keeps_consumer(old(inner)@, final(inner)@),
            final(self).known_free(final(inner)@) == old(inner)@.free(),
            readiness == old(inner)@.writable(min as int),
            readiness is Ready <==> old(inner)@.capacity - (old(inner)@.sent.len() - old(inner)@.freed) >= min,
            readiness is Pending <==> old(inner)@.consumer_alive && old(inner)@.capacity - (old(inner)@.sent.len()
                - old(inner)@.freed) < min,
            final(inner)@ == if readiness is Pending {
                old(inner)@.producer_parked(waker)
            } else {
                old(inner)@
            },
    {
        let ghost pre = inner@;
        let mut at = WritePoll::Read(waker);
        loop
            invariant
                pre == old(inner)@,
                inner.wf(),
                self.attached(inner@),
                at is Read || self.known_free(inner@) == pre.free(),
                pre.write_poll_alone(waker, min as int, at, inner@),
            decreases at.rank(),
        {
            match at {
                WritePoll::Done(readiness) => {
                    proof {
                        law_producer_keeps_consumer(pre, inner@);
                    }
                    return readiness;
                },
                other => {
                    at = self.poll_writable_step(inner, min, other);
                },
            }
        }
    }

    /// Makes the next access of a producer that leaves.
    pub fn leave_step(&self, inner: &mut Inner<T>, at: Leave) -> (next: Leave)
        requires
            old(inner).wf(),
            at is Clear ==> self.attached(old(inner)@),
        ensures
            final(inner).wf(),
            producer_step(old(inner)@, final(inner)@),
            keeps_consumer(old(inner)@, final(inner)@),
            final(inner)@ == old(inner)@.after_producer_leave(at),
            next == old(inner)@.next_producer_leave(at),
    {
        let ghost pre = inner@;
        let next = match at {
            Leave::Clear => {
                inner.clear_producer_alive();
                Leave::Wake(Waking::Claim)
            },
            Leave::Wake(Waking::Deliver(w)) => {
                let (_parking, due) = inner.consumer_parking();
                deliver(due, w);
                Leave::Done
            },
            Leave::Wake(w) => {
                let (parking, _due) = inner.consumer_parking();
                Leave::Wake(parking.wake_step(w))
            },
            Leave::Done => Leave::Done,
        };
        proof {
            law_producer_keeps_consumer(pre, inner@);
        }
        next
    }

    /// Leaves the channel for good and wakes the consumer, whether it has asked
    /// for that or not.
    pub fn close(self, inner: &mut Inner<T>)
        requires
            old(inner).wf(),
            self.attached(old(inner)@),
        ensures
            final(inner).wf(),
            producer_step(old(inner)@, final(inner)@),
            keeps_consumer(old(inner)@, final(inner)@),
            final(inner)@ == old(inner)@.producer_left(),
    {
        let ghost pre = inner@;
        let mut at = Leave::Clear;
        loop
            invariant
                pre == old(inner)@,
                inner.wf(),
                self.attached(pre),
                pre.producer_leave_alone(at, inner@),
            decreases at.rank(),
        {
            match at {
                Leave::Done => {
                    proof {
                        law_producer_keeps_consumer(pre, inner@);
                    }
                    return;
                },
                other => {
                    at = self.leave_step(inner, other);
                },
            }
        }
    }
}

/// Bulk write handle. Holds an exclusive borrow of the `Producer`, so at most
/// one exists at a time.
///
/// Dropping it without `commit` is harmless: no counter advances, nothing is
/// published, and the slots stay free. Values staged in them are forgotten.
#[must_use]
pub struct WriteHandle<'a, T> {
    /// The producer, held until the handle goes.
    pub producer: &'a mut Producer<T>,
    /// How many slots the handle covers.
    pub free: usize,
}

impl<'a, T> WriteHandle<'a, T> {
    /// The producer belongs to that channel, and the slots are free there.
    pub open spec fn usable(self, s: State<T>) -> bool {
        &&& self.producer.attached(s)
        &&& self.free <= self.producer.known_free(s)
    }

    /// Number of writable slots in this handle, which is the sum of the two
    /// lengths given by `as_uninit_slices_mut`.
    #[inline]
    pub fn capacity(&self) -> (slots: usize)
        ensures
            slots == self.free,
    {
        self.free
    }

    /// The writable slots, in two runs. The second is non-empty only when the
    /// writable region goes past the end of the buffer and continues at its
    /// beginning. Logical order: first run, then second.
    pub fn as_uninit_slices_mut<'i>(&mut self, inner: &'i mut Inner<T>) -> (res: (
        &'i mut [Slot<T>],
        &'i mut [Slot<T>],
    ))
        requires
            old(inner).wf(),
            old(self).usable(old(inner)@),
        ensures
            *final(self) == *old(self),
            old(self).usable(final(inner)@),
            res.0@.len() == run_before_wrap(
                old(inner)@.sent.len() as int,
                old(self).free as int,
                old(inner)@.capacity,
            ),
            res.0@ + res.1@ == Seq::new(
                old(self).free as nat,
                |i: int| old(inner)@.slot(old(inner)@.sent.len() + i),
            ),
            forall|i: int| 0 <= i < res.0@.len() ==> (#[trigger] res.0@[i]).live() is None,
            forall|i: int| 0 <= i < res.1@.len() ==> (#[trigger] res.1@[i]).live() is None,
            final(inner).represents(),
            final(inner)@.same_but_slots(old(inner)@),
            keeps_consumer(old(inner)@, final(inner)@),
            final(res.0)@.len() == res.0@.len() && final(res.1)@.len() == res.1@.len() ==> {
                &&& refilled_as(
                    old(inner)@,
                    final(inner)@,
                    old(self).free as int,
                    final(res.0)@ + final(res.1)@,
                )
                &&& producer_step(old(inner)@, final(inner)@)
            },
    {
        broadcast use {lemma_filling_is_a_step, lemma_slots_keep_consumer};

        inner.free_slices_mut(self.producer.local_write, self.free)
    }

    /// Whether the first `n` slots, in the order of the two runs, have all been
    /// written.
    pub fn is_staged(&self, inner: &Inner<T>, n: usize) -> (staged: bool)
        requires
            inner.wf(),
            self.usable(inner@),
            n <= self.free,
        ensures
            staged == inner@.is_staged(n as int),
    {
        inner.is_staged(self.producer.local_write, n)
    }

    /// Publishes the first `n` slots, in the order of the two runs, and wakes
    /// the consumer if it has asked for that. Consumes the handle.
    pub fn commit(self, inner: &mut Inner<T>, n: usize)
        requires
            old(inner).wf(),
            self.usable(old(inner)@),
            n <= self.free,
            old(inner)@.is_staged(n as int),
        ensures
            final(inner).wf(),
            final(self.producer).attached(final(inner)@),
            final(self.producer).known_free(final(inner)@) == old(self.producer).known_free(
                old(inner)@,
            ) - n,
            producer_step(old(inner)@, final(inner)@),
            keeps_consumer(old(inner)@, final(inner)@),
            n == 0 ==> final(inner)@ == old(inner)@,
            n > 0 ==> old(inner)@.published(old(inner)@.staged(n as int), final(inner)@),
    {
        if n == 0 {
            return;
        }
        self.producer.publish_write(inner, n);
    }
}

} // verus!
