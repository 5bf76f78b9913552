//! Consumer side of the channel.

use crate::atomic_waker::deliver;
use crate::atomic_waker::Registration;
use crate::atomic_waker::Waking;
use crate::counter::distance;
use crate::counter::lemma_distance;
use crate::counter::lemma_modulus;
use crate::counter::lemma_wrap_advance;
use crate::counter::wrap;
use crate::inner::run_before_wrap;
use crate::inner::Inner;
use crate::parking::Leave;
use crate::parking::Readiness;
use crate::parking::Signal;
use crate::producer::keeps_producer;
use crate::producer::law_consumer_keeps_producer;
use crate::read_steps::law_take_one_more;
use crate::read_steps::HandBack;
use crate::read_steps::Pop;
use crate::read_steps::ReadPoll;
use crate::slot::Slot;
use crate::state::consumer_step;
use crate::state::producer_step;
use crate::state::State;
use core::marker::PhantomData;
use std::task::Waker;
use vstd::prelude::*;

verus! {

/// Consumer half of the channel. It leaves the channel with `close`.
pub struct Consumer<T> {
    /// Consumer's own counter, equal to the one last published.
    local_read: usize,
    /// Lower bound on the producer's counter, refreshed when it claims that
    /// the buffer is empty.
    cached_write: usize,
    elements: PhantomData<T>,
}

/// Reason a pop failed.
#[derive(Debug, Clone, Copy, PartialEq, Eq, Structural)]
pub enum TryRecvError {
    /// Nothing available right now; producer still there.
    Empty,
    /// Producer gone and buffer empty.
    Closed,
}

impl TryRecvError {
    pub fn message(&self) -> (message: &'static str)
        ensures
            message@ == match self {
                TryRecvError::Empty => "channel empty"@,
                TryRecvError::Closed => "channel closed"@,
            },
    {
        match self {
            TryRecvError::Empty => "channel empty",
            TryRecvError::Closed => "channel closed",
        }
    }
}

/// Whoever is the consumer of the channel in `pre` is so in `post`, too.
pub open spec fn keeps_consumer<T>(pre: State<T>, post: State<T>) -> bool {
    forall|c: Consumer<T>| #[trigger] c.attached(pre) ==> c.attached(post)
}

/// Nothing that the producer does takes the channel away from its consumer.
pub proof fn law_producer_keeps_consumer<T>(pre: State<T>, post: State<T>)
    requires
        producer_step(pre, post),
    ensures
        keeps_consumer(pre, post),
{
}

/// Handing out the wakers that are due does not concern the consumer.
pub proof fn law_due_keeps_consumer<T>(s: State<T>)
    ensures
        keeps_consumer(s, s.due_taken()),
{
}

/// A consumer is part of its channel, and the elements that it knows of are
/// there.
pub proof fn law_known_len<T>(consumer: Consumer<T>, s: State<T>)
    requires
        consumer.attached(s),
    ensures
        s.consumer_alive,
        0 <= consumer.known_len() <= s.available(),
{
}

/// Whoever is the consumer does not depend on the contents of the slots.
pub broadcast proof fn lemma_slots_keep_consumer<T>(pre: State<T>, post: State<T>)
    requires
        #[trigger] post.same_but_slots(pre),
    ensures
        #[trigger] keeps_consumer(pre, post),
{
}

impl<T> Consumer<T> {
    /// This is the consumer of that channel: its own counter is up to date, and
    /// the cached one does not promise elements that are not there.
    pub closed spec fn attached(self, s: State<T>) -> bool {
        &&& s.consumer_alive
        &&& self.local_read == wrap(s.taken)
        &&& distance(self.cached_write, self.local_read) <= s.available()
    }

    /// How many elements there are according to the cached counter.
    pub closed spec fn known_len(self) -> int {
        distance(self.cached_write, self.local_read)
    }

    pub(crate) fn new() -> (consumer: Self)
        ensures
            forall|s: State<T>|
                s.taken == 0 && s.consumer_alive ==> #[trigger] consumer.attached(s),
    {
        Consumer { local_read: 0, cached_write: 0, elements: PhantomData }
    }

    /// Power-of-two slot count.
    #[inline]
    pub fn capacity(&self, inner: &Inner<T>) -> (capacity: usize)
        requires
            inner.wf(),
        ensures
            capacity == inner@.capacity,
    {
        inner.capacity()
    }

    /// Number of elements available, after a look at the producer's counter.
    pub fn len(&self, inner: &Inner<T>) -> (len: usize)
        requires
            inner.wf(),
            self.attached(inner@),
        ensures
            len == inner@.available(),
    {
        proof {
            lemma_modulus();
            lemma_distance(inner@.sent.len() as int, inner@.taken);
        }
        inner.load_write().wrapping_sub(self.local_read)
    }

    pub fn is_empty(&self, inner: &Inner<T>) -> (empty: bool)
        requires
            inner.wf(),
            self.attached(inner@),
        ensures
            empty == (inner@.available() == 0),
    {
        self.len(inner) == 0
    }

    pub fn is_producer_alive(&self, inner: &Inner<T>) -> (alive: bool)
        ensures
            alive == inner@.producer_alive,
    {
        inner.is_producer_alive()
    }

    /// Number of elements available according to the cached counter. There may
    /// be more.
    #[inline]
    pub fn cached_len(&self) -> (len: usize)
        ensures
            len == self.known_len(),
    {
        self.cached_write.wrapping_sub(self.local_read)
    }

    /// Looks at the producer's counter.
    #[inline]
    pub fn refresh_cached_write(&mut self, inner: &Inner<T>)
        requires
            inner.wf(),
            old(self).attached(inner@),
        ensures
            final(self).attached(inner@),
            final(self).known_len() == inner@.available(),
    {
        self.cached_write = inner.load_write();
        proof {
            lemma_modulus();
            lemma_distance(inner@.sent.len() as int, inner@.taken);
        }
    }

    /// Makes the next access of a return of emptied slots.
    pub fn hand_back_step(&mut self, inner: &mut Inner<T>, at: HandBack) -> (next: HandBack)
        requires
            old(inner).wf(),
            old(self).attached(old(inner)@),
        ensures
            final(inner).wf(),
            *final(self) == *old(self),
            final(self).attached(final(inner)@),
            consumer_step(old(inner)@, final(inner)@),
            keeps_producer(old(inner)@, final(inner)@),
            final(inner)@ == old(inner)@.after_hand_back(at),
            next == old(inner)@.next_hand_back(at),
    {
        let ghost pre = inner@;
        let next = match at {
            HandBack::Store => {
                inner.store_read(self.local_read);
                HandBack::Signal(Signal::Check)
            },
            HandBack::Signal(Signal::Wake(Waking::Deliver(w))) => {
                let (_parking, due) = inner.producer_parking();
                deliver(due, w);
                HandBack::Done
            },
            HandBack::Signal(signal) => {
                let (parking, _due) = inner.producer_parking();
                HandBack::Signal(parking.signal_step(signal))
            },
            HandBack::Done => HandBack::Done,
        };
        proof {
            law_consumer_keeps_producer(pre, inner@);
        }
        next
    }

    /// Hands the emptied slots back, then wakes the producer if it has asked
    /// for that.
    fn publish_read(&mut self, inner: &mut Inner<T>)
        requires
            old(inner).wf(),
            old(self).attached(old(inner)@),
        ensures
            final(inner).wf(),
            *final(self) == *old(self),
            final(self).attached(final(inner)@),
            consumer_step(old(inner)@, final(inner)@),
            final(inner)@ == old(inner)@.handed_back(),
    {
        let ghost pre = inner@;
        let mut at = HandBack::Store;
        loop
            invariant
                pre == old(inner)@,
                *self == *old(self),
                pre.consumer_alive,
                pre.valid(),
                inner.wf(),
                self.attached(inner@),
                pre.hand_back_alone(at, inner@),
            decreases at.rank(),
        {
            match at {
                HandBack::Done => {
                    return;
                },
                other => {
                    at = self.hand_back_step(inner, other);
                },
            }
        }
    }

    /// Makes the next access of a pop.
    pub fn pop_step(&mut self, inner: &mut Inner<T>, at: Pop<T>) -> (next: Pop<T>)
        requires
            old(inner).wf(),
            old(self).attached(old(inner)@),
            at.backed(old(self).known_len()),
        ensures
            final(inner).wf(),
            final(self).attached(final(inner)@),
            next.backed(final(self).known_len()),
            consumer_step(old(inner)@, final(inner)@),
            keeps_producer(old(inner)@, final(inner)@),
            old(inner)@.pop_access(at, final(inner)@),
            next == old(inner)@.next_pop(at),
            final(self).known_len() == match at {
                Pop::Write(_) => old(inner)@.available(),
                Pop::Take => old(self).known_len() - 1,
                _ => old(self).known_len(),
            },
    {
        let ghost pre = inner@;
        let next = match at {
            Pop::Alive => Pop::Write(self.is_producer_alive(inner)),
            Pop::Write(alive) => {
                self.refresh_cached_write(inner);
                if self.cached_len() == 0 {
                    if alive {
                        Pop::Done(Err(TryRecvError::Empty))
                    } else {
                        Pop::Done(Err(TryRecvError::Closed))
                    }
                } else {
                    Pop::Take
                }
            },
            Pop::Take => {
                proof {
                    lemma_wrap_advance(inner@.taken, 1);
                }
                let value = inner.take(self.local_read);
                self.local_read = self.local_read.wrapping_add(1);
                Pop::HandBack(value, HandBack::Store)
            },
            Pop::HandBack(value, hand_back) => match self.hand_back_step(inner, hand_back) {
                HandBack::Done => Pop::Done(Ok(value)),
                next => Pop::HandBack(value, next),
            },
            Pop::Done(res) => Pop::Done(res),
        };
        proof {
            law_consumer_keeps_producer(pre, inner@);
        }
        next
    }

    /// Pops one element.
    pub fn try_pop(&mut self, inner: &mut Inner<T>) -> (res: Result<T, TryRecvError>)
        requires
            old(inner).wf(),
            old(self).attached(old(inner)@),
        ensures
            final(inner).wf(),
            final(self).attached(final(inner)@),
            consumer_step(old(inner)@, final(inner)@),
            keeps_producer(old(inner)@, final(inner)@),
            res is Err ==> final(self).known_len() == 0,
            match res {
                Ok(value) => {
                    &&& old(inner)@.available() > 0
                    &&& value == old(inner)@.queue()[0]
                    &&& old(inner)@.consumed(1, final(inner)@)
                    &&& final(self).known_len() == if old(self).known_len() == 0 {
                        old(inner)@.available() - 1
                    } else {
                        old(self).known_len() - 1
                    }
                },
                Err(TryRecvError::Empty) => {
                    &&& old(inner)@.available() == 0
                    &&& old(inner)@.producer_alive
                    &&& final(inner)@ == old(inner)@
                },
                Err(TryRecvError::Closed) => {
                    &&& old(inner)@.available() == 0
                    &&& !old(inner)@.producer_alive
                    &&& final(inner)@ == old(inner)@
                },
            },
    {
        let ghost pre = inner@;
        let ghost first = self.known_len();
        let ghost known = if first == 0 {
            pre.available()
        } else {
            first
        };
        let mut at = if self.cached_len() == 0 {
            Pop::Alive
        } else {
            Pop::Take
        };
        loop
            invariant
                pre == old(inner)@,
                pre.consumer_alive,
                pre.valid(),
                inner.wf(),
                self.attached(inner@),
                at.backed(self.known_len()),
                pre.pop_alone(at, inner@),
                first == old(self).known_len(),
                known == if first == 0 {
                    pre.available()
                } else {
                    first
                },
                match at {
                    Pop::Alive => self.known_len() == 0 && first == 0,
                    Pop::Write(_) => self.known_len() == 0 && first == 0,
                    Pop::Take => self.known_len() == known,
                    Pop::HandBack(_, _) => self.known_len() == known - 1,
                    Pop::Done(Ok(_)) => self.known_len() == known - 1,
                    Pop::Done(Err(_)) => self.known_len() == 0,
                },
            decreases at.rank(),
        {
            match at {
                Pop::Done(res) => {
                    proof {
                        law_consumer_keeps_producer(pre, inner@);
                    }
                    return res;
                },
                other => {
                    at = self.pop_step(inner, other);
                },
            }
        }
    }

    /// Acquires a read handle on all elements that are available. Returns
    /// `None` if there are none (`is_producer_alive` tells whether more may
    /// come).
    pub fn try_bulk_read(&mut self, inner: &Inner<T>) -> (res: Option<ReadHandle<'_, T>>)
        requires
            inner.wf(),
            old(self).attached(inner@),
        ensures
            match res {
                Some(handle) => {
                    &&& inner@.available() > 0
                    &&& *final(handle.consumer) == *final(self)
                    &&& handle.usable(inner@)
                    &&& handle.available == inner@.available()
                    &&& handle.committed == 0
                },
                None => {
                    &&& inner@.available() == 0
                    &&& final(self).attached(inner@)
                },
            },
    {
        self.refresh_cached_write(inner);
        let available: usize = self.cached_len();
        if available == 0 {
            return None;
        }
        Some(ReadHandle { consumer: self, available, committed: 0 })
    }

    /// Looks whether at least `min` elements are available. If the producer has
    /// gone, any element is enough.
    pub fn check_readable(&mut self, inner: &Inner<T>, min: usize) -> (readiness: Readiness)
        requires
            inner.wf(),
            old(self).attached(inner@),
            0 < min <= inner@.capacity,
        ensures
            final(self).attached(inner@),
            final(self).known_len() == inner@.available(),
            readiness == inner@.readable(min as int),
            readiness is Ready <==> inner@.sent.len() - inner@.taken >= min || (!inner@.producer_alive
                && inner@.sent.len() > inner@.taken),
            readiness is Pending <==> inner@.producer_alive && inner@.sent.len() - inner@.taken < min,
    {
        let alive = self.is_producer_alive(inner);
        self.refresh_cached_write(inner);
        let available: usize = self.cached_len();
        if available >= min || (available > 0 && !alive) {
            return Readiness::Ready;
        }
        if !alive {
            return Readiness::Closed;
        }
        Readiness::Pending
    }

    /// A read handle on the elements that were available at the last look.
    pub fn read_handle(&mut self) -> (handle: ReadHandle<'_, T>)
        ensures
            forall|s: State<T>| #[trigger] old(self).attached(s) ==> handle.usable(s),
            handle.available == old(self).known_len(),
            handle.committed == 0,
            *final(handle.consumer) == *final(self),
    {
        let available: usize = self.cached_len();
        ReadHandle { consumer: self, available, committed: 0 }
    }

    /// Makes the next access of a consumer that looks for `min` elements.
    pub fn poll_readable_step(
        &mut self,
        inner: &mut Inner<T>,
        min: usize,
        at: ReadPoll,
    ) -> (next: ReadPoll)
        requires
            old(inner).wf(),
            old(self).attached(old(inner)@),
        ensures
            final(inner).wf(),
            final(self).attached(final(inner)@),
            consumer_step(old(inner)@, final(inner)@),
            keeps_producer(old(inner)@, final(inner)@),
            final(inner)@ == old(inner)@.after_read_poll(at),
            next == old(inner)@.next_read_poll(min as int, at),
            at is Write || at is WriteAgain ==> final(self).known_len() == old(inner)@.available(),
            !(at is Write || at is WriteAgain) ==> *final(self) == *old(self),
    {
        let ghost pre = inner@;
        let next = match at {
            ReadPoll::Alive(w) => ReadPoll::Write(w, self.is_producer_alive(inner)),
            ReadPoll::Write(w, alive) => {
                self.refresh_cached_write(inner);
                let available: usize = self.cached_len();
                if available >= min {
                    ReadPoll::Done(Readiness::Ready)
                } else if alive {
                    ReadPoll::Park(Registration::Claim(w))
                } else if available > 0 {
                    ReadPoll::Done(Readiness::Ready)
                } else {
                    ReadPoll::Done(Readiness::Closed)
                }
            },
            ReadPoll::Park(Registration::Deliver(w)) => {
                let (_parking, due) = inner.consumer_parking();
                deliver(due, w);
                ReadPoll::Raise
            },
            ReadPoll::Park(r) => {
                let (parking, _due) = inner.consumer_parking();
                ReadPoll::Park(parking.register_step(r))
            },
            ReadPoll::Raise => {
                let (parking, _due) = inner.consumer_parking();
                parking.set_wake_pending(true);
                ReadPoll::AliveAgain
            },
            ReadPoll::AliveAgain => ReadPoll::WriteAgain(self.is_producer_alive(inner)),
            ReadPoll::WriteAgain(alive) => {
                self.refresh_cached_write(inner);
                let available: usize = self.cached_len();
                if available >= min {
                    ReadPoll::Lower(Readiness::Ready)
                } else if alive {
                    ReadPoll::Done(Readiness::Pending)
                } else if available > 0 {
                    ReadPoll::Lower(Readiness::Ready)
                } else {
                    ReadPoll::Lower(Readiness::Closed)
                }
            },
            ReadPoll::Lower(readiness) => {
                let (parking, _due) = inner.consumer_parking();
                parking.set_wake_pending(false);
                ReadPoll::Done(readiness)
            },
            ReadPoll::Done(readiness) => ReadPoll::Done(readiness),
        };
        proof {
            law_consumer_keeps_producer(pre, inner@);
        }
        next
    }

    /// Looks whether at least `min` elements are available; if the producer has
    /// gone, any element is enough. If there is nothing to do yet, stores
    /// `waker` to be woken when the producer publishes or goes.
    pub fn poll_readable(&mut self, inner: &mut Inner<T>, waker: Waker, min: usize) -> (readiness:
        Readiness)
        requires
            old(inner).wf(),
            old(self).attached(old(inner)@),
        ensures
            final(inner).wf(),
            final(self).attached(final(inner)@),
            consumer_step(old(inner)@, final(inner)@),
            keeps_producer(old(inner)@, final(inner)@),
            final(self).known_len() == old(inner)@.available(),
            readiness == old(inner)@.readable(min as int),
            readiness is Ready <==> old(inner)@.sent.len() - old(inner)@.taken >= min || (!old(inner)@.producer_alive
                && old(inner)@.sent.len() > old(inner)@.taken),
            readiness is Pending <==> old(inner)@.producer_alive && old(inner)@.sent.len() - old(inner)@.taken < min,
            final(inner)@ == if readiness is Pending {
                old(inner)@.consumer_parked(waker)
            } else {
                old(inner)@
            },
    {
        let ghost pre = inner@;
        let mut at = ReadPoll::Alive(waker);
        loop
            invariant
                pre == old(inner)@,
                inner.wf(),
                self.attached(inner@),
                at is Alive || at is Write || self.known_len() == pre.available(),
                pre.read_poll_alone(waker, min as int, at, inner@),
            decreases at.rank(),
        {
            match at {
                ReadPoll::Done(readiness) => {
                    proof {
                        law_consumer_keeps_producer(pre, inner@);
                    }
                    return readiness;
                },
                other => {
                    at = self.poll_readable_step(inner, min, other);
                },
            }
        }
    }

    /// Makes the next access of a consumer that leaves.
    pub fn leave_step(&self, inner: &mut Inner<T>, at: Leave) -> (next: Leave)
        requires
            old(inner).wf(),
            at is Clear ==> self.attached(old(inner)@),
        ensures
            final(inner).wf(),
            consumer_step(old(inner)@, final(inner)@),
            keeps_producer(old(inner)@, final(inner)@),
            final(inner)@ == old(inner)@.after_consumer_leave(at),
            next == old(inner)@.next_consumer_leave(at),
    {
        let ghost pre = inner@;
        let next = match at {
            Leave::Clear => {
                inner.clear_consumer_alive();
                Leave::Wake(Waking::Claim)
            },
            Leave::Wake(Waking::Deliver(w)) => {
                let (_parking, due) = inner.producer_parking();
                deliver(due, w);
                Leave::Done
            },
            Leave::Wake(w) => {
                let (parking, _due) = inner.producer_parking();
                Leave::Wake(parking.wake_step(w))
            },
            Leave::Done => Leave::Done,
        };
        proof {
            law_consumer_keeps_producer(pre, inner@);
        }
        next
    }

    /// Leaves the channel for good and wakes the producer, whether it has asked
    /// for that or not.
    pub fn close(self, inner: &mut Inner<T>)
        requires
            old(inner).wf(),
            self.attached(old(inner)@),
        ensures
            final(inner).wf(),
            consumer_step(old(inner)@, final(inner)@),
            keeps_producer(old(inner)@, final(inner)@),
            final(inner)@ == old(inner)@.consumer_left(),
    {
        let ghost pre = inner@;
        let mut at = Leave::Clear;
        loop
            invariant
                pre == old(inner)@,
                inner.wf(),
                self.attached(pre),
                pre.consumer_leave_alone(at, inner@),
            decreases at.rank(),
        {
            match at {
                Leave::Done => {
                    proof {
                        law_consumer_keeps_producer(pre, inner@);
                    }
                    return;
                },
                other => {
                    at = self.leave_step(inner, other);
                },
            }
        }
    }
}

/// Bulk read handle. Holds an exclusive borrow of the `Consumer`.
///
/// The handle does not copy elements: `as_slices` gives shared references into
/// the ring buffer. `commit(n)` drops the first `n` elements and frees their
/// slots for the producer.
///
/// Dropping a handle with uncommitted elements leaves them in the queue,
/// available on the next read.
#[must_use]
pub struct ReadHandle<'a, T> {
    /// The consumer, held until the handle goes.
    pub consumer: &'a mut Consumer<T>,
    /// Total elements available when the handle was made.
    pub available: usize,
    /// How many have been committed.
    pub committed: usize,
}

impl<'a, T> ReadHandle<'a, T> {
    /// The consumer belongs to that channel, and the elements are there.
    pub open spec fn usable(self, s: State<T>) -> bool {
        &&& self.consumer.attached(s)
        &&& 0 <= self.available - self.committed <= self.consumer.known_len()
    }

    /// Number of uncommitted elements.
    #[inline]
    pub fn len(&self) -> (len: usize)
        requires
            self.committed <= self.available,
        ensures
            len == self.available - self.committed,
    {
        self.available - self.committed
    }

    pub fn is_empty(&self) -> (empty: bool)
        requires
            self.committed <= self.available,
        ensures
            empty == (self.available == self.committed),
    {
        self.len() == 0
    }

    /// The slots of the uncommitted elements, in two runs. The second is
    /// non-empty only when the region goes past the end of the buffer and
    /// continues at its beginning. Logical order: first run, then second.
    pub fn as_slices<'i>(&self, inner: &'i Inner<T>) -> (res: (&'i [Slot<T>], &'i [Slot<T>]))
        requires
            inner.wf(),
            self.usable(inner@),
        ensures
            self.available - self.committed <= inner@.queue().len(),
            res.0@.len() == run_before_wrap(
                inner@.taken,
                self.available - self.committed,
                inner@.capacity,
            ),
            res.0@ + res.1@ == Seq::new(
                (self.available - self.committed) as nat,
                |i: int| Slot::Live(inner@.queue()[i]),
            ),
    {
        let res = inner.live_slices(self.consumer.local_read, self.len());
        proof {
            let runs = res.0@ + res.1@;
            assert forall|i: int| 0 <= i < runs.len() implies runs[i] == Slot::Live(
                inner@.queue()[i],
            ) by {
                assert(runs[i] == inner@.slot(inner@.taken + i));
            }
        }
        res
    }

    /// Takes the first uncommitted element out of its slot. The slot is handed
    /// back with `hand_back`.
    pub fn take_next(&mut self, inner: &mut Inner<T>) -> (value: T)
        requires
            old(inner).wf(),
            old(self).usable(old(inner)@),
            old(self).committed < old(self).available,
        ensures
            final(inner).wf(),
            final(self).usable(final(inner)@),
            final(self).available == old(self).available,
            final(self).committed == old(self).committed + 1,
            *final(final(self).consumer) == *final(old(self).consumer),
            consumer_step(old(inner)@, final(inner)@),
            keeps_producer(old(inner)@, final(inner)@),
            value == old(inner)@.queue()[0],
            old(inner)@.emptied(1, final(inner)@),
            final(self).consumer.known_len() == old(self).consumer.known_len() - 1,
    {
        let ghost pre = inner@;
        proof {
            lemma_wrap_advance(inner@.taken, 1);
        }
        let value = inner.take(self.consumer.local_read);
        self.consumer.local_read = self.consumer.local_read.wrapping_add(1);
        self.committed = self.committed + 1;
        proof {
            law_consumer_keeps_producer(pre, inner@);
        }
        value
    }

    /// Hands the slots of the elements taken so far back and wakes the producer
    /// if it has asked for that.
    pub fn hand_back(&mut self, inner: &mut Inner<T>)
        requires
            old(inner).wf(),
            old(self).usable(old(inner)@),
        ensures
            final(inner).wf(),
            final(self).usable(final(inner)@),
            final(self).available == old(self).available,
            final(self).committed == old(self).committed,
            final(self).consumer.known_len() == old(self).consumer.known_len(),
            *final(final(self).consumer) == *final(old(self).consumer),
            consumer_step(old(inner)@, final(inner)@),
            keeps_producer(old(inner)@, final(inner)@),
            final(inner)@ == old(inner)@.handed_back(),
    {
        let ghost pre = inner@;
        self.consumer.publish_read(inner);
        proof {
            law_consumer_keeps_producer(pre, inner@);
        }
    }

    /// Drops the first `n` uncommitted elements, hands their slots back and
    /// wakes the producer if it has asked for that.
    pub fn commit(&mut self, inner: &mut Inner<T>, n: usize)
        requires
            old(inner).wf(),
            old(self).usable(old(inner)@),
            n <= old(self).available - old(self).committed,
        ensures
            final(inner).wf(),
            final(self).usable(final(inner)@),
            final(self).available == old(self).available,
            final(self).committed == old(self).committed + n,
            final(self).consumer.known_len() == old(self).consumer.known_len() - n,
            *final(final(self).consumer) == *final(old(self).consumer),
            consumer_step(old(inner)@, final(inner)@),
            keeps_producer(old(inner)@, final(inner)@),
            old(inner)@.committed(n as int, final(inner)@),
    {
        if n == 0 {
            return;
        }
        let ghost pre = inner@;
        let mut i: usize = 0;
        while i < n
            invariant
                inner.wf(),
                self.usable(inner@),
                self.available == old(self).available,
                self.committed == old(self).committed + i,
                self.consumer.known_len() == old(self).consumer.known_len() - i,
                *final(self.consumer) == *final(old(self).consumer),
                n <= old(self).available - old(self).committed,
                pre.valid(),
                n <= pre.available(),
                i <= n,
                pre.consumer_alive,
                pre.emptied(i as int, inner@),
            decreases n - i,
        {
            let ghost mid = inner@;
            let _dropped = self.take_next(inner);
            proof {
                law_take_one_more(pre, i as int, mid, inner@);
            }
            i = i + 1;
        }
        self.hand_back(inner);
        proof {
            law_consumer_keeps_producer(pre, inner@);
        }
    }

    /// The same as `commit`.
    pub fn consume(&mut self, inner: &mut Inner<T>, n: usize)
        requires
            old(inner).wf(),
            old(self).usable(old(inner)@),
            n <= old(self).available - old(self).committed,
        ensures
            final(inner).wf(),
            final(self).usable(final(inner)@),
            final(self).available == old(self).available,
            final(self).committed == old(self).committed + n,
            final(self).consumer.known_len() == old(self).consumer.known_len() - n,
            *final(final(self).consumer) == *final(old(self).consumer),
            consumer_step(old(inner)@, final(inner)@),
            keeps_producer(old(inner)@, final(inner)@),
            old(inner)@.committed(n as int, final(inner)@),
    {
        self.commit(inner, n)
    }
}

} // verus!
