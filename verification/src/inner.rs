//! Shared state behind the channel.
//!
//! Both halves work on one `Inner`. The buffer is of fixed, power-of-two
//! length, and indices are computed as `counter & mask`. Each function here
//! makes one access to the shared state.

use crate::consumer::keeps_consumer;
use crate::consumer::law_due_keeps_consumer;
use crate::counter::distance;
use crate::counter::lemma_distance;
use crate::counter::lemma_modulus;
use crate::counter::lemma_slots_distinct;
use crate::counter::lemma_wrap_advance;
use crate::counter::lemma_wrap_mask;
use crate::counter::max_capacity;
use crate::counter::wrap;
use crate::parking::Parking;
use crate::producer::keeps_producer;
use crate::producer::law_due_keeps_producer;
use crate::slot::Slot;
use crate::state::consumer_step;
use crate::state::producer_step;
use crate::state::State;
use std::task::Waker;
use vstd::arithmetic::power2::is_pow2;
use vstd::prelude::*;

verus! {

/// The shared part of a channel.
pub struct Inner<T> {
    capacity: usize,
    mask: usize,
    buffer: Vec<Slot<T>>,
    /// Producer's counter. Index = `write & mask`.
    write: usize,
    /// Consumer's counter. Index = `read & mask`.
    read: usize,
    /// Signalled when the producer commits or leaves.
    consumer: Parking,
    /// Signalled when the consumer commits or leaves.
    producer: Parking,
    producer_alive: bool,
    consumer_alive: bool,
    /// Wakers of the tasks that are to be woken.
    due: Vec<Waker>,
    sent: Ghost<Seq<T>>,
    taken: Ghost<int>,
    freed: Ghost<int>,
}

impl<T> View for Inner<T> {
    type V = State<T>;

    closed spec fn view(&self) -> State<T> {
        State {
            capacity: self.capacity as int,
            slots: self.buffer@,
            sent: self.sent@,
            taken: self.taken@,
            freed: self.freed@,
            producer_alive: self.producer_alive,
            consumer_alive: self.consumer_alive,
            producer: self.producer@,
            consumer: self.consumer@,
            due: self.due@,
        }
    }
}

impl<T> Inner<T> {
    /// The fields agree with the ghost history of the channel.
    pub closed spec fn represents(self) -> bool {
        &&& self.mask == self.capacity - 1
        &&& self.write == wrap(self.sent@.len() as int)
        &&& self.read == wrap(self.freed@)
        &&& self.consumer.wf()
        &&& self.producer.wf()
    }

    pub open spec fn wf(self) -> bool {
        &&& self.represents()
        &&& self@.valid()
    }

    /// An empty channel with `capacity` slots and both halves present.
    pub fn with_capacity(capacity: usize) -> (inner: Self)
        requires
            is_pow2(capacity as int),
            0 < capacity <= max_capacity(),
        ensures
            inner.wf(),
            inner@ == State::<T>::fresh(capacity as int),
    {
        let mut buffer: Vec<Slot<T>> = Vec::with_capacity(capacity);
        let mut i: usize = 0;
        while i < capacity
            invariant
                i <= capacity,
                buffer@ == Seq::new(i as nat, |j: int| Slot::<T>::Vacant),
            decreases capacity - i,
        {
            buffer.push(Slot::Vacant);
            i = i + 1;
        }
        let inner = Inner {
            capacity,
            mask: capacity - 1,
            buffer,
            write: 0,
            read: 0,
            consumer: Parking::new(),
            producer: Parking::new(),
            producer_alive: true,
            consumer_alive: true,
            due: Vec::new(),
            sent: Ghost(Seq::empty()),
            taken: Ghost(0),
            freed: Ghost(0),
        };
        assert forall|k: int| 0 <= k < capacity implies (#[trigger] inner@.slot(k)).live()
            is None by {
            lemma_wrap_mask(k, capacity);
        }
        assert(inner@ == State::<T>::fresh(capacity as int));
        inner
    }

    #[inline]
    pub fn capacity(&self) -> (capacity: usize)
        requires
            self.wf(),
        ensures
            capacity == self@.capacity,
    {
        self.capacity
    }

    /// The producer's counter.
    #[inline]
    pub fn load_write(&self) -> (write: usize)
        requires
            self.wf(),
        ensures
            write == wrap(self@.sent.len() as int),
    {
        self.write
    }

    /// The consumer's counter.
    #[inline]
    pub fn load_read(&self) -> (read: usize)
        requires
            self.wf(),
        ensures
            read == wrap(self@.freed),
    {
        self.read
    }

    pub fn is_producer_alive(&self) -> (alive: bool)
        ensures
            alive == self@.producer_alive,
    {
        self.producer_alive
    }

    pub fn is_consumer_alive(&self) -> (alive: bool)
        ensures
            alive == self@.consumer_alive,
    {
        self.consumer_alive
    }

    /// Records that the producer is gone.
    pub(crate) fn clear_producer_alive(&mut self)
        requires
            old(self).wf(),
        ensures
            final(self).wf(),
            final(self)@ == (State { producer_alive: false, ..old(self)@ }),
    {
        self.producer_alive = false;
    }

    /// Records that the consumer is gone.
    pub(crate) fn clear_consumer_alive(&mut self)
        requires
            old(self).wf(),
        ensures
            final(self).wf(),
            final(self)@ == (State { consumer_alive: false, ..old(self)@ }),
    {
        self.consumer_alive = false;
    }

    /// Where the consumer waits, and the list of the wakers that are due.
    pub(crate) fn consumer_parking(&mut self) -> (res: (&mut Parking, &mut Vec<Waker>))
        requires
            old(self).wf(),
        ensures
            res.0.wf(),
            res.0@ == old(self)@.consumer,
            res.1@ == old(self)@.due,
            final(res.0).wf() ==> final(self).wf(),
            final(self)@ == (State {
                consumer: final(res.0)@,
                due: final(res.1)@,
                ..old(self)@
            }),
    {
        (&mut self.consumer, &mut self.due)
    }

    /// Where the producer waits, and the list of the wakers that are due.
    pub(crate) fn producer_parking(&mut self) -> (res: (&mut Parking, &mut Vec<Waker>))
        requires
            old(self).wf(),
        ensures
            res.0.wf(),
            res.0@ == old(self)@.producer,
            res.1@ == old(self)@.due,
            final(res.0).wf() ==> final(self).wf(),
            final(self)@ == (State {
                producer: final(res.0)@,
                due: final(res.1)@,
                ..old(self)@
            }),
    {
        (&mut self.producer, &mut self.due)
    }

    /// Hands out the wakers of the tasks that are to be woken.
    pub fn take_due(&mut self) -> (due: Vec<Waker>)
        requires
            old(self).wf(),
        ensures
            final(self).wf(),
            due@ == old(self)@.due,
            final(self)@ == old(self)@.due_taken(),
            keeps_producer(old(self)@, final(self)@),
            keeps_consumer(old(self)@, final(self)@),
    {
        let ghost pre = self@;
        let mut due: Vec<Waker> = Vec::new();
        core::mem::swap(&mut due, &mut self.due);
        proof {
            law_due_keeps_producer(pre);
            law_due_keeps_consumer(pre);
        }
        due
    }

    /// Stages `value` in the next slot that the producer may fill. `write` is
    /// the producer's counter.
    pub(crate) fn stage(&mut self, write: usize, value: T)
        requires
            old(self).wf(),
            write == wrap(old(self)@.sent.len() as int),
            old(self)@.free() > 0,
        ensures
            final(self).wf(),
            old(self)@.staged_next(value, final(self)@),
            producer_step(old(self)@, final(self)@),
    {
        let ghost pre = self@;
        let ghost w = self@.sent.len() as int;
        proof {
            lemma_wrap_mask(w, self.capacity);
        }
        let idx: usize = write & self.mask;
        self.buffer[idx].write(value);
        proof {
            assert forall|k: int|
                w - pre.capacity < k < w + pre.capacity && k != w && 0
                    <= k implies #[trigger] self@.slot(k) == pre.slot(k) by {
                lemma_wrap_mask(k, self.capacity);
                if k < w {
                    lemma_slots_distinct(k, w, pre.capacity);
                } else {
                    lemma_slots_distinct(w, k, pre.capacity);
                }
            }
        }
    }

    /// Whether the next `n` slots that the producer may fill all hold a staged
    /// value. `write` is the producer's counter.
    pub(crate) fn is_staged(&self, write: usize, n: usize) -> (staged: bool)
        requires
            self.wf(),
            write == wrap(self@.sent.len() as int),
            n <= self@.free(),
        ensures
            staged == self@.is_staged(n as int),
    {
        let ghost w = self@.sent.len() as int;
        let mut i: usize = 0;
        while i < n
            invariant
                self.wf(),
                write == wrap(w),
                w == self@.sent.len(),
                n <= self@.free(),
                i <= n,
                self@.is_staged(i as int),
            decreases n - i,
        {
            proof {
                lemma_wrap_advance(w, i);
                lemma_wrap_mask(w + i, self.capacity);
            }
            let idx: usize = write.wrapping_add(i) & self.mask;
            if !self.buffer[idx].has_staged() {
                assert(self@.slot(w + i).staged() is None);
                return false;
            }
            i = i + 1;
        }
        true
    }

    /// Publishes the staged values up to the counter `new_write`.
    pub(crate) fn store_write(&mut self, new_write: usize)
        requires
            old(self).wf(),
            old(self)@.producer_alive,
            ({
                let n = distance(new_write, wrap(old(self)@.sent.len() as int));
                n <= old(self)@.free() && old(self)@.is_staged(n)
            }),
        ensures
            final(self).wf(),
            ({
                let n = distance(new_write, wrap(old(self)@.sent.len() as int));
                old(self)@.stored(old(self)@.staged(n), final(self)@)
            }),
            producer_step(old(self)@, final(self)@),
    {
        let ghost pre = self@;
        let ghost w = self@.sent.len() as int;
        let ghost cap = self@.capacity;
        let start: usize = self.write;
        let n: usize = new_write.wrapping_sub(start);
        let mut i: usize = 0;
        while i < n
            invariant
                self.represents(),
                pre.valid(),
                pre.is_staged(n as int),
                n <= pre.free(),
                self@.same_but_slots(pre),
                self.buffer@.len() == cap,
                start == wrap(w),
                w == pre.sent.len(),
                cap == pre.capacity,
                i <= n,
                forall|k: int|
                    w <= k < w + i ==> #[trigger] self@.slot(k) == Slot::Live(
                        pre.slot(k).staged().unwrap(),
                    ),
                forall|k: int|
                    0 <= k && w + i <= k < w + cap ==> #[trigger] self@.slot(k) == pre.slot(k),
                forall|k: int|
                    0 <= k && pre.taken <= k < w ==> #[trigger] self@.slot(k) == pre.slot(k),
            decreases n - i,
        {
            let ghost mid = self@;
            proof {
                lemma_modulus();
                lemma_wrap_advance(w, i);
                lemma_wrap_mask(w + i, self.capacity);
            }
            let idx: usize = start.wrapping_add(i) & self.mask;
            assert(mid.slot(w + i) == pre.slot(w + i));
            self.buffer[idx].commit();
            proof {
                assert forall|k: int|
                    w + i - cap < k < w + i + cap && k != w + i && 0
                        <= k implies #[trigger] self@.slot(k) == mid.slot(k) by {
                    lemma_wrap_mask(k, self.capacity);
                    if k < w + i {
                        lemma_slots_distinct(k, w + i, cap);
                    } else {
                        lemma_slots_distinct(w + i, k, cap);
                    }
                }
            }
            i = i + 1;
        }
        let ghost mid = self@;
        self.write = new_write;
        proof {
            self.sent@ = pre.sent + pre.staged(n as int);
            lemma_modulus();
            lemma_wrap_advance(w, n);
            assert(new_write == start.wrapping_add(n));
            assert(self@.slots == mid.slots);
            assert(self.represents());
            assert forall|k: int| pre.taken <= k < self@.sent.len() implies (
            #[trigger] self@.slot(k)).live() == Some(self@.sent[k]) by {
                assert(self@.slot(k) == mid.slot(k));
                if k >= w {
                    assert(self@.sent[k] == pre.staged(n as int)[k - w]);
                } else {
                    assert(pre.slot(k).live() == Some(pre.sent[k]));
                }
            }
            assert(self@ == (State {
                sent: pre.sent + pre.staged(n as int),
                slots: self@.slots,
                ..pre
            }));
        }
    }

    /// Moves the element at the head of the queue out of its slot. `read` is
    /// the consumer's counter.
    pub(crate) fn take(&mut self, read: usize) -> (value: T)
        requires
            old(self).wf(),
            read == wrap(old(self)@.taken),
            old(self)@.available() > 0,
            old(self)@.consumer_alive,
        ensures
            final(self).wf(),
            consumer_step(old(self)@, final(self)@),
            value == old(self)@.sent[old(self)@.taken],
            final(self)@ == (State {
                taken: old(self)@.taken + 1,
                slots: final(self)@.slots,
                ..old(self)@
            }),
            final(self)@.slot(old(self)@.taken) == Slot::<T>::Vacant,
            forall|k: int|
                0 <= k && old(self)@.taken - old(self)@.capacity < k < old(self)@.taken
                    + old(self)@.capacity && k != old(self)@.taken ==> #[trigger] final(self)@.slot(k)
                    == old(self)@.slot(k),
    {
        let ghost pre = self@;
        let ghost r = self@.taken;
        proof {
            lemma_wrap_mask(r, self.capacity);
        }
        let idx: usize = read & self.mask;
        assert(pre.slot(r).live() is Some);
        let value = self.buffer[idx].take();
        proof {
            self.taken@ = r + 1;
            assert forall|k: int|
                0 <= k && r - pre.capacity < k < r + pre.capacity && k
                    != r implies #[trigger] self@.slot(k) == pre.slot(k) by {
                lemma_wrap_mask(k, self.capacity);
                if k < r {
                    lemma_slots_distinct(k, r, pre.capacity);
                } else {
                    lemma_slots_distinct(r, k, pre.capacity);
                }
            }
            assert(self@.slot(r + pre.capacity) == self@.slot(r)) by {
                vstd::arithmetic::div_mod::lemma_mod_add_multiples_vanish(r, pre.capacity);
            }
        }
        value.unwrap()
    }

    /// Hands the slots before the counter `new_read` back to the producer.
    pub(crate) fn store_read(&mut self, new_read: usize)
        requires
            old(self).wf(),
            new_read == wrap(old(self)@.taken),
            old(self)@.consumer_alive,
        ensures
            final(self).wf(),
            consumer_step(old(self)@, final(self)@),
            final(self)@ == (State { freed: old(self)@.taken, ..old(self)@ }),
    {
        self.read = new_read;
        proof {
            self.freed@ = self.taken@;
        }
    }

    /// The slots of the first `len` queued elements, in two runs. `read` is
    /// the consumer's counter.
    pub(crate) fn live_slices(&self, read: usize, len: usize) -> (res: (&[Slot<T>], &[Slot<T>]))
        requires
            self.wf(),
            read == wrap(self@.taken),
            len <= self@.available(),
        ensures
            res.0@.len() == run_before_wrap(self@.taken, len as int, self@.capacity),
            res.0@ + res.1@ == Seq::new(len as nat, |i: int| self@.slot(self@.taken + i)),
    {
        proof {
            lemma_wrap_mask(self@.taken, self.capacity);
            lemma_run(self@.taken, len as int, self@.capacity);
        }
        let start: usize = read & self.mask;
        let room: usize = self.capacity - start;
        let first_len: usize = if room < len { room } else { len };
        let second_len: usize = len - first_len;
        let all = self.buffer.as_slice();
        let first = vstd::slice::slice_subrange(all, start, start + first_len);
        let second = vstd::slice::slice_subrange(all, 0, second_len);
        (first, second)
    }

    /// The first `len` slots that the producer may fill, in two runs. `write`
    /// is the producer's counter.
    pub(crate) fn free_slices_mut(&mut self, write: usize, len: usize) -> (res: (
        &mut [Slot<T>],
        &mut [Slot<T>],
    ))
        requires
            old(self).wf(),
            write == wrap(old(self)@.sent.len() as int),
            len <= old(self)@.free(),
        ensures
            res.0@.len() == run_before_wrap(
                old(self)@.sent.len() as int,
                len as int,
                old(self)@.capacity,
            ),
            res.0@ + res.1@ == Seq::new(
                len as nat,
                |i: int| old(self)@.slot(old(self)@.sent.len() + i),
            ),
            forall|i: int| 0 <= i < res.0@.len() ==> (#[trigger] res.0@[i]).live() is None,
            forall|i: int| 0 <= i < res.1@.len() ==> (#[trigger] res.1@[i]).live() is None,
            final(self)@.same_but_slots(old(self)@),
            final(res.0)@.len() == res.0@.len() && final(res.1)@.len() == res.1@.len()
                ==> refilled_as(
                old(self)@,
                final(self)@,
                len as int,
                final(res.0)@ + final(res.1)@,
            ),
            final(self).represents(),
    {
        let ghost pre = self@;
        proof {
            lemma_wrap_mask(self@.sent.len() as int, self.capacity);
            lemma_run(self@.sent.len() as int, len as int, self@.capacity);
        }
        let start: usize = write & self.mask;
        let room: usize = self.capacity - start;
        let first_len: usize = if room < len { room } else { len };
        let second_len: usize = len - first_len;
        let all = self.buffer.as_mut_slice();
        let (head, tail) = all.split_at_mut(start);
        let (first, _rest) = tail.split_at_mut(first_len);
        let (second, _rest) = head.split_at_mut(second_len);
        proof {
            assert forall|f: Seq<Slot<T>>, g: Seq<Slot<T>>|
                f.len() == first_len && g.len() == second_len implies refilled_as(
                pre,
                State { slots: #[trigger] refilled(pre, f, g), ..pre },
                len as int,
                f + g,
            ) by {
                lemma_refilled(pre, len as int, f, g);
            }
        }
        proof {
            let runs = first@ + second@;
            assert forall|i: int| 0 <= i < len implies (#[trigger] runs[i]).live() is None by {
                assert(runs[i] == pre.slot(pre.sent.len() + i));
            }
            assert forall|i: int| 0 <= i < first@.len() implies (#[trigger] first@[i]).live()
                is None by {
                assert(first@[i] == runs[i]);
            }
            assert forall|i: int| 0 <= i < second@.len() implies (#[trigger] second@[i]).live()
                is None by {
                assert(second@[i] == runs[first@.len() + i]);
            }
        }
        // Names the term that the statement on all refillings is triggered by.
        assert(refilled(pre, final(first)@, final(second)@).len() >= 0);
        (first, second)
    }
}

/// The slot at `index`, or `None` if there is none.
///
/// This is `<[Slot<T>]>::get_mut` on the elements of the vector. The contract
/// takes from its documentation that it refers to the element at `index` if
/// there is one, that it changes nothing itself, and that an index out of
/// bounds makes it return `None` rather than panic. It opens no invariant,
/// which a destructor asks of what it calls and indexing does not promise.
#[verifier::external_body]
fn slot_at<T>(buffer: &mut Vec<Slot<T>>, index: usize) -> (slot: Option<&mut Slot<T>>)
    ensures
        match slot {
            Some(slot) => {
                &&& index < old(buffer)@.len()
                &&& *slot == old(buffer)@[index as int]
                &&& final(buffer)@ == old(buffer)@.update(index as int, *final(slot))
            },
            None => {
                &&& index >= old(buffer)@.len()
                &&& final(buffer)@ == old(buffer)@
            },
        },
    opens_invariants none
    no_unwind
{
    buffer.get_mut(index)
}

impl<T> Drop for Inner<T> {
    /// Drops every element that is still queued, oldest first. Slots outside
    /// of the queue are left alone.
    fn drop(&mut self)
        ensures
            old(self).wf() ==> final(self).wf() && old(self)@.drained(final(self)@),
        opens_invariants none
        no_unwind
    {
        let ghost pre = self@;
        let ghost good = self.wf();
        let ghost mut at: int = pre.freed;
        let write: usize = self.write;
        let mut idx: usize = self.read;
        proof {
            if good {
                lemma_modulus();
                lemma_distance(pre.sent.len() as int, pre.freed);
            }
        }
        while idx != write
            invariant
                good ==> {
                    &&& pre.valid()
                    &&& write == wrap(pre.sent.len() as int)
                    &&& self.represents()
                    &&& self@.same_but_slots(pre)
                    &&& self@.slots.len() == pre.capacity
                    &&& pre.freed <= at <= pre.sent.len()
                    &&& idx == wrap(at)
                },
                good ==> forall|k: int|
                    pre.freed <= k < at ==> #[trigger] self@.slot(k) == Slot::<T>::Vacant,
                good ==> forall|k: int|
                    at <= k < pre.freed + pre.capacity ==> #[trigger] self@.slot(k) == pre.slot(k),
            decreases distance(write, idx),
        {
            let ghost mid = self@;
            proof {
                if good {
                    lemma_wrap_advance(at, 1);
                    lemma_wrap_mask(at, self.capacity);
                    assert(at < pre.sent.len());
                }
            }
            let slot: usize = idx & self.mask;
            if let Some(slot) = slot_at(&mut self.buffer, slot) {
                let _dropped = slot.take();
            }
            idx = if idx == usize::MAX {
                0
            } else {
                idx + 1
            };
            proof {
                if good {
                    assert forall|k: int|
                        pre.freed <= k < pre.freed + pre.capacity && k
                            != at implies #[trigger] self@.slot(k) == mid.slot(k) by {
                        lemma_wrap_mask(k, self.capacity);
                        if k < at {
                            lemma_slots_distinct(k, at, pre.capacity);
                        } else {
                            lemma_slots_distinct(at, k, pre.capacity);
                        }
                    }
                    at = at + 1;
                }
            }
        }
        proof {
            if good {
                let len = pre.sent.len() as int;
                lemma_modulus();
                lemma_distance(len, at);
                assert(at == len);
                let mid = self@;
                self.taken@ = len;
                assert(self@ == (State { taken: len, ..mid }));
                assert(self@.capacity == mid.capacity && self@.slots == mid.slots);
                assert forall|k: int| len <= k < len + pre.capacity implies (
                #[trigger] self@.slot(k)).live() is None by {
                    if k >= pre.freed + pre.capacity {
                        let j = k - pre.capacity;
                        vstd::arithmetic::div_mod::lemma_mod_add_multiples_vanish(j, pre.capacity);
                        assert(self@.slot(j) == Slot::<T>::Vacant);
                        assert(self@.slot(k) == self@.slot(j));
                    } else {
                        assert(pre.slot(k).live() is None);
                    }
                }
            }
        }
    }
}

/// How many of the `len` slots from element number `k` on come before the end
/// of the buffer.
pub open spec fn run_before_wrap(k: int, len: int, capacity: int) -> int {
    if capacity - k % capacity < len {
        capacity - k % capacity
    } else {
        len
    }
}

/// The slots from element number `k` on run to the end of the buffer and
/// continue at its beginning.
proof fn lemma_run(k: int, len: int, capacity: int)
    requires
        0 <= k,
        0 <= len <= capacity,
        0 < capacity,
    ensures
        forall|i: int|
            0 <= i < len ==> #[trigger] ((k + i) % capacity) == if i < run_before_wrap(
                k,
                len,
                capacity,
            ) {
                k % capacity + i
            } else {
                i - run_before_wrap(k, len, capacity)
            },
{
    assert forall|i: int| 0 <= i < len implies #[trigger] ((k + i) % capacity) == if i
        < run_before_wrap(k, len, capacity) {
        k % capacity + i
    } else {
        i - run_before_wrap(k, len, capacity)
    } by {
        let q = k / capacity;
        let r = k % capacity;
        vstd::arithmetic::div_mod::lemma_fundamental_div_mod(k, capacity);
        vstd::arithmetic::div_mod::lemma_mod_bound(k, capacity);
        assert(k == q * capacity + r) by (nonlinear_arith)
            requires
                k == capacity * q + r,
        ;
        if r + i < capacity {
            vstd::arithmetic::div_mod::lemma_fundamental_div_mod_converse(
                k + i,
                capacity,
                q,
                r + i,
            );
        } else {
            assert(k + i == (q + 1) * capacity + (r + i - capacity)) by (nonlinear_arith)
                requires
                    k == q * capacity + r,
            ;
            vstd::arithmetic::div_mod::lemma_fundamental_div_mod_converse(
                k + i,
                capacity,
                q + 1,
                r + i - capacity,
            );
        }
    }
}

/// The slots after the two runs that the producer may fill have been replaced
/// by `first` and `second`.
spec fn refilled<T>(pre: State<T>, first: Seq<Slot<T>>, second: Seq<Slot<T>>) -> Seq<Slot<T>> {
    let start = pre.sent.len() as int % pre.capacity;
    (second + pre.slots.subrange(0, start).subrange(second.len() as int, start)) + (first
        + pre.slots.subrange(start, pre.capacity).subrange(
        first.len() as int,
        pre.capacity - start,
    ))
}

/// Of the slots, only the next `len` that the producer may fill have changed,
/// and they hold `runs` now. As long as none of these is live, the state stays
/// valid.
pub open spec fn refilled_as<T>(
    pre: State<T>,
    post: State<T>,
    len: int,
    runs: Seq<Slot<T>>,
) -> bool {
    let w = pre.sent.len() as int;
    &&& Seq::new(len as nat, |i: int| post.slot(w + i)) == runs
    &&& forall|k: int| w + len <= k < w + pre.capacity ==> #[trigger] post.slot(k) == pre.slot(k)
    &&& forall|k: int| pre.taken <= k < w ==> #[trigger] post.slot(k) == pre.slot(k)
    &&& (forall|i: int| 0 <= i < len ==> (#[trigger] runs[i]).live() is None) ==> post.valid()
}

proof fn lemma_refilled<T>(pre: State<T>, len: int, first: Seq<Slot<T>>, second: Seq<Slot<T>>)
    requires
        pre.valid(),
        0 <= len <= pre.free(),
        first.len() == run_before_wrap(pre.sent.len() as int, len, pre.capacity),
        second.len() == len - first.len(),
    ensures
        refilled_as(
            pre,
            State { slots: refilled(pre, first, second), ..pre },
            len,
            first + second,
        ),
{
    let post = State { slots: refilled(pre, first, second), ..pre };
    let w = pre.sent.len() as int;
    let cap = pre.capacity;
    lemma_run(w, len, cap);
    lemma_run(w, cap, cap);
    vstd::arithmetic::div_mod::lemma_mod_bound(w, cap);
    assert forall|i: int| 0 <= i < len implies post.slot(w + i) == #[trigger] (first + second)[i] by {
        let j = (w + i) % cap;
        assert(post.slot(w + i) == post.slots[j]);
    }
    assert(Seq::new(len as nat, |i: int| post.slot(w + i)) =~= first + second);
    assert forall|k: int| w + len <= k < w + cap implies #[trigger] post.slot(k) == pre.slot(k) by {
        let i = k - w;
        assert((w + i) % cap == k % cap);
    }
    assert forall|k: int| pre.taken <= k < w implies #[trigger] post.slot(k) == pre.slot(k) by {
        vstd::arithmetic::div_mod::lemma_mod_add_multiples_vanish(k, cap);
        assert(post.slot(k + cap) == pre.slot(k + cap));
    }
    if forall|i: int| 0 <= i < len ==> (#[trigger] (first + second)[i]).live() is None {
        assert forall|k: int| w <= k < pre.taken + cap implies (#[trigger] post.slot(k)).live()
            is None by {
            if k < w + len {
                assert((first + second)[k - w].live() is None);
            }
        }
    }
}

} // verus!
