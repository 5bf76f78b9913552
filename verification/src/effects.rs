//! What each operation comes to, said of the plain fields of the state: how
//! many elements there are, who is there, who is woken, and what stays as it
//! was.

use crate::atomic_waker::delivered;
use crate::atomic_waker::Registration;
use crate::atomic_waker::WakerState;
use crate::atomic_waker::Waking;
use crate::counter::is_rounded_up;
use crate::inner::refilled_as;
use crate::inner::run_before_wrap;
use crate::parking::Leave;
use crate::parking::ParkingState;
use crate::parking::Readiness;
use crate::parking::Signal;
use crate::read_steps::HandBack;
use crate::read_steps::ReadPoll;
use crate::slot::Slot;
use crate::state::State;
use crate::write_steps::Publish;
use crate::write_steps::WritePoll;
use core::mem::ManuallyDrop;
use std::task::Waker;
use vstd::arithmetic::power2::is_pow2;
use vstd::prelude::*;

verus! {

/// A consumer is told to go on exactly if as many elements as it asked for are
/// queued, or any at all are and no more can come. It is told to give up exactly
/// if none are queued and none can come, and to wait exactly if fewer than it
/// asked for are queued and more can come.
pub proof fn law_readable<T>(s: State<T>, min: int)
    ensures
        s.readable(min) is Ready <==> s.sent.len() - s.taken >= min || (!s.producer_alive
            && s.sent.len() > s.taken),
        s.readable(min) is Closed <==> !s.producer_alive && s.sent.len() <= s.taken && s.sent.len()
            - s.taken < min,
        s.readable(min) is Pending <==> s.producer_alive && s.sent.len() - s.taken < min,
{
}

/// A consumer that asks for less is told to go on whenever one that asks for
/// more is, and what it is told does not change for the worse as more is sent.
pub proof fn law_readable_is_monotone<T>(s: State<T>, less: int, min: int, more: State<T>)
    requires
        0 < less <= min,
        more.taken == s.taken,
        more.producer_alive == s.producer_alive,
        s.sent.len() <= more.sent.len(),
    ensures
        s.readable(min) is Ready ==> s.readable(less) is Ready && more.readable(min) is Ready,
{
}

/// A producer is told to go on exactly if as many slots as it asked for are
/// free, whether the consumer is there or not. If fewer are, it is told to wait
/// exactly if the consumer is there, and to give up exactly if it is gone.
pub proof fn law_writable<T>(s: State<T>, min: int)
    ensures
        s.writable(min) is Ready <==> s.capacity - (s.sent.len() - s.freed) >= min,
        s.writable(min) is Closed <==> s.capacity - (s.sent.len() - s.freed) < min
            && !s.consumer_alive,
        s.writable(min) is Pending <==> s.capacity - (s.sent.len() - s.freed) < min
            && s.consumer_alive,
{
}

/// The queue is what was sent and not taken, in the order in which it was sent.
pub proof fn law_queue<T>(s: State<T>)
    requires
        0 <= s.taken <= s.sent.len(),
    ensures
        s.queue().len() == s.sent.len() - s.taken,
        s.available() == s.sent.len() - s.taken,
        s.free() + (s.sent.len() - s.freed) == s.capacity,
        forall|i: int| 0 <= i < s.queue().len() ==> #[trigger] s.queue()[i] == s.sent[s.taken + i],
{
}

/// Each element has one slot, the same for all elements a capacity apart.
pub proof fn law_slot<T>(s: State<T>, k: int)
    requires
        0 < s.capacity,
    ensures
        s.slot(k) == s.slots[k % s.capacity],
{
}

/// A cell holds at most one of a written value and a queued element.
pub proof fn law_cell<T>(value: T, written: ManuallyDrop<T>)
    ensures
        Slot::<T>::Vacant.staged() is None,
        Slot::<T>::Vacant.live() is None,
        Slot::Staged(written).staged() == Some(written@),
        Slot::Staged(written).live() is None,
        Slot::Live(value).staged() is None,
        Slot::Live(value).live() == Some(value),
{
}

/// The values that are about to be published are those that were written, each
/// in its slot, in the order of the slots.
pub proof fn law_staged<T>(s: State<T>, n: int)
    requires
        0 <= n,
    ensures
        s.staged(n).len() == n,
        s.is_staged(n) <==> forall|i: int|
            0 <= i < n ==> (#[trigger] s.slot(s.sent.len() + i)).staged() is Some,
        s.is_staged(n) ==> forall|i: int|
            0 <= i < n ==> (#[trigger] s.slot(s.sent.len() + i)).staged() == Some(s.staged(n)[i]),
{
    let w = s.sent.len() as int;
    if forall|i: int| 0 <= i < n ==> (#[trigger] s.slot(w + i)).staged() is Some {
        assert forall|k: int| w <= k < w + n implies (#[trigger] s.slot(k)).staged() is Some by {
            assert(s.slot(w + (k - w)).staged() is Some);
        }
    }
}

/// Writing to slots leaves all else as it was.
pub proof fn law_same_but_slots<T>(pre: State<T>, post: State<T>)
    ensures
        post.same_but_slots(pre) <==> {
            &&& post.capacity == pre.capacity
            &&& post.sent == pre.sent
            &&& post.taken == pre.taken
            &&& post.freed == pre.freed
            &&& post.producer_alive == pre.producer_alive
            &&& post.consumer_alive == pre.consumer_alive
            &&& post.producer == pre.producer
            &&& post.consumer == pre.consumer
            &&& post.due == pre.due
        },
{
}

/// A value that is staged is in the next slot that the producer may fill, and no
/// other slot of the round has changed.
pub proof fn law_staging<T>(pre: State<T>, value: T, post: State<T>)
    requires
        pre.staged_next(value, post),
    ensures
        post == (State { slots: post.slots, ..pre }),
        post.slot(pre.sent.len() as int).staged() == Some(value),
        forall|k: int|
            pre.sent.len() < k < pre.sent.len() + pre.capacity ==> #[trigger] post.slot(k)
                == pre.slot(k),
        forall|k: int| pre.taken <= k < pre.sent.len() ==> #[trigger] post.slot(k) == pre.slot(k),
{
}

/// What is published is in the slots of its own, and no other slot of the round
/// has changed.
pub proof fn law_published_slots<T>(pre: State<T>, values: Seq<T>, post: State<T>)
    requires
        post.valid(),
        pre.taken <= pre.sent.len(),
        pre.published(values, post) || pre.stored(values, post),
    ensures
        forall|i: int|
            0 <= i < values.len() ==> #[trigger] post.slot(pre.sent.len() + i) == Slot::Live(
                values[i],
            ),
        forall|k: int|
            pre.sent.len() + values.len() <= k < pre.sent.len() + pre.capacity
                ==> #[trigger] post.slot(k) == pre.slot(k),
        forall|k: int| pre.taken <= k < pre.sent.len() ==> #[trigger] post.slot(k) == pre.slot(k),
{
    assert forall|i: int| 0 <= i < values.len() implies #[trigger] post.slot(pre.sent.len() + i)
        == Slot::Live(values[i]) by {
        assert(post.slot(pre.sent.len() + i).live() == Some(post.sent[pre.sent.len() + i]));
    }
}

/// A valid channel: a power of two of slots, no more elements than slots, and an
/// element in a slot exactly if it is queued.
pub proof fn law_valid<T>(s: State<T>)
    requires
        s.valid(),
    ensures
        is_pow2(s.capacity),
        s.slots.len() == s.capacity,
        0 <= s.freed <= s.taken <= s.sent.len() <= s.freed + s.capacity,
        forall|k: int|
            s.taken <= k < s.sent.len() ==> (#[trigger] s.slot(k)).live() == Some(s.sent[k]),
        forall|k: int|
            s.sent.len() <= k < s.taken + s.capacity ==> (#[trigger] s.slot(k)).live() is None,
{
}

/// Nothing has happened to a new channel.
pub proof fn law_fresh<T>(capacity: int)
    requires
        0 < capacity,
    ensures
        ({
            let s = State::<T>::fresh(capacity);
            let nobody = ParkingState {
                wake_pending: false,
                cell: WakerState { registering: false, waking: false, waker: None },
            };
            &&& s.capacity == capacity
            &&& s.slots.len() == capacity
            &&& forall|i: int| 0 <= i < capacity ==> #[trigger] s.slots[i] == Slot::<T>::Vacant
            &&& s.sent.len() == 0
            &&& s.taken == 0
            &&& s.freed == 0
            &&& s.producer_alive
            &&& s.consumer_alive
            &&& s.producer == nobody
            &&& s.consumer == nobody
            &&& s.due.len() == 0
        }),
{
}

/// The capacity of a channel is a power of two, no less than what was asked for
/// and less than twice that. A power of two is taken as it is.
pub proof fn law_rounded_up(requested: int, rounded: int)
    requires
        0 < requested,
        is_rounded_up(requested, rounded),
    ensures
        is_pow2(rounded),
        requested <= rounded < 2 * requested,
        is_pow2(requested) ==> rounded == requested,
{
    crate::counter::lemma_rounded_up(requested, rounded);
}

/// The first run of `n` slots in a row goes to the last of them or to the end of
/// the buffer, whichever comes first.
pub proof fn law_first_run(k: int, n: int, capacity: int)
    requires
        0 <= k,
        0 <= n <= capacity,
        0 < capacity,
    ensures
        0 <= run_before_wrap(k, n, capacity) <= n,
        k % capacity + run_before_wrap(k, n, capacity) <= capacity,
        run_before_wrap(k, n, capacity) == n || k % capacity + run_before_wrap(k, n, capacity)
            == capacity,
{
    vstd::arithmetic::div_mod::lemma_mod_bound(k, capacity);
}

/// What is written through a handle is in the slots of the handle, in order, and
/// no other slot has changed.
pub proof fn law_refilled<T>(pre: State<T>, post: State<T>, len: int, runs: Seq<Slot<T>>)
    requires
        refilled_as(pre, post, len, runs),
        0 <= len,
    ensures
        runs.len() == len,
        forall|i: int| 0 <= i < len ==> #[trigger] post.slot(pre.sent.len() + i) == runs[i],
        forall|k: int|
            pre.sent.len() + len <= k < pre.sent.len() + pre.capacity ==> #[trigger] post.slot(k)
                == pre.slot(k),
        forall|k: int|
            pre.taken <= k < pre.sent.len() ==> #[trigger] post.slot(k) == pre.slot(k),
{
    let w = pre.sent.len() as int;
    assert forall|i: int| 0 <= i < len implies #[trigger] post.slot(w + i) == runs[i] by {
        assert(Seq::new(len as nat, |i: int| post.slot(w + i))[i] == runs[i]);
    }
}

/// A waker that becomes due comes after those that are due already.
pub proof fn law_delivered(due: Seq<Waker>, waker: Option<Waker>)
    ensures
        waker is None ==> delivered(due, waker) == due,
        waker matches Some(w) ==> delivered(due, waker) == due.push(w),
{
}

/// A new cell is free and empty.
pub proof fn law_fresh_cell()
    ensures
        !WakerState::fresh().registering,
        !WakerState::fresh().waking,
        WakerState::fresh().waker is None,
{
}

/// A registration in a free cell replaces the waker that is there. If a wake
/// holds the cell, the new waker is due at once. If another registration holds
/// it, nothing happens.
pub proof fn law_register(cell: WakerState, waker: Waker)
    ensures
        ({
            let post = cell.registered(waker);
            let due = cell.due_on_register(waker);
            if cell.registering {
                post == cell && due is None
            } else if cell.waking {
                post == cell && due == Some(waker)
            } else {
                post == (WakerState { waker: Some(waker), ..cell }) && due is None
            }
        }),
{
}

/// The last of several registrations counts.
pub proof fn law_last_registration_counts(cell: WakerState, first: Waker, last: Waker)
    requires
        cell.idle(),
    ensures
        cell.registered(first).registered(last) == cell.registered(last),
        cell.registered(first).registered(last).due_on_wake() == Some(last),
{
}

/// A wake empties a free cell and makes due what was there. If the cell is held,
/// the wake is left there, and nothing is due.
pub proof fn law_wake(cell: WakerState)
    ensures
        ({
            let post = cell.woken();
            let due = cell.due_on_wake();
            if cell.registering || cell.waking {
                post == (WakerState { waking: true, ..cell }) && due is None
            } else {
                post == (WakerState { waker: None, ..cell }) && due == cell.waker
            }
        }),
{
}

/// While a side goes to sleep, only its own place and the wakers that are due
/// change: it raises the flag when its waker has been stored, and lowers it
/// again when it turns out that there is no need to wait.
pub proof fn law_read_poll_access<T>(s: State<T>, min: int, at: ReadPoll)
    ensures
        ({
            let post = s.after_read_poll(at);
            let next = s.next_read_poll(min, at);
            &&& post == (State { consumer: post.consumer, due: post.due, ..s })
            &&& at is Raise ==> post.consumer.wake_pending && post.consumer.cell == s.consumer.cell
            &&& at is Lower ==> !post.consumer.wake_pending && post.consumer.cell
                == s.consumer.cell
            &&& !(at is Raise || at is Lower) ==> post.consumer.wake_pending
                == s.consumer.wake_pending
            &&& !(at is Park || at is Raise || at is Lower) ==> post == s
            &&& at is Raise ==> next is AliveAgain
            &&& at is AliveAgain ==> next == ReadPoll::WriteAgain(s.producer_alive)
            &&& next is Lower ==> at is WriteAgain
            &&& next == ReadPoll::Done(Readiness::Pending) ==> at is WriteAgain
                || at == next || at == ReadPoll::Lower(Readiness::Pending)
            &&& at matches ReadPoll::Park(Registration::Deliver(w)) ==> next is Raise
                && post.consumer == s.consumer
            &&& at matches ReadPoll::Park(Registration::Deliver(Some(w))) ==> post.due
                == s.due.push(w)
            &&& at matches ReadPoll::Park(Registration::Deliver(None)) ==> post.due == s.due
            &&& !(at matches ReadPoll::Park(Registration::Deliver(_))) ==> post.due == s.due
        }),
{
}

/// The same of a producer.
pub proof fn law_write_poll_access<T>(s: State<T>, min: int, at: WritePoll)
    ensures
        ({
            let post = s.after_write_poll(at);
            let next = s.next_write_poll(min, at);
            &&& post == (State { producer: post.producer, due: post.due, ..s })
            &&& at is Raise ==> post.producer.wake_pending && post.producer.cell == s.producer.cell
            &&& at is Lower ==> !post.producer.wake_pending && post.producer.cell
                == s.producer.cell
            &&& !(at is Raise || at is Lower) ==> post.producer.wake_pending
                == s.producer.wake_pending
            &&& !(at is Park || at is Raise || at is Lower) ==> post == s
            &&& at is Raise ==> next is ReadAgain
            &&& next is Lower ==> at is ReadAgain || at is AliveAgain
            &&& next == WritePoll::Done(Readiness::Pending) ==> at is AliveAgain
                || at == next || at == WritePoll::Lower(Readiness::Pending)
            &&& at matches WritePoll::Park(Registration::Deliver(w)) ==> next is Raise
                && post.producer == s.producer
            &&& at matches WritePoll::Park(Registration::Deliver(Some(w))) ==> post.due
                == s.due.push(w)
            &&& at matches WritePoll::Park(Registration::Deliver(None)) ==> post.due == s.due
            &&& !(at matches WritePoll::Park(Registration::Deliver(_))) ==> post.due == s.due
        }),
{
}

/// A signal looks at the flag, lowers it before it wakes, and wakes only if the
/// flag was raised.
pub proof fn law_signal_access(parking: ParkingState, at: Signal)
    ensures
        ({
            let post = parking.after_signal(at);
            let next = parking.next_signal(at);
            &&& at is Check ==> post == parking
            &&& at is Check && parking.wake_pending ==> next is Clear
            &&& at is Check && !parking.wake_pending ==> next == Signal::Wake(Waking::Deliver(None))
            &&& at is Clear ==> !post.wake_pending && post.cell == parking.cell && next
                == Signal::Wake(Waking::Claim)
            &&& at is Wake ==> post.wake_pending == parking.wake_pending
        }),
{
}

/// A registration locks a free cell before it stores its waker, and unlocks it
/// afterwards. If a wake has come in between, it takes the waker out again and
/// clears the wake with the lock.
pub proof fn law_registration_access(cell: WakerState, at: Registration)
    ensures
        ({
            let post = cell.after_registration(at);
            let next = cell.next_registration(at);
            let free = !cell.registering && !cell.waking;
            match at {
                Registration::Claim(w) => {
                    &&& post.waking == cell.waking
                    &&& post.waker == cell.waker
                    &&& post.registering == (free || cell.registering)
                    &&& free <==> next == Registration::Install(w)
                    &&& !free && !cell.registering <==> next == Registration::Deliver(Some(w))
                    &&& cell.registering <==> next == Registration::Deliver(None)
                },
                Registration::Install(w) => {
                    &&& post.waker == Some(w)
                    &&& post.registering == cell.registering
                    &&& post.waking == cell.waking
                    &&& next is Finish
                },
                Registration::Finish => {
                    &&& post.waker == cell.waker
                    &&& post.waking == cell.waking
                    &&& cell.registering && !cell.waking ==> !post.registering && next
                        == Registration::Deliver(None)
                    &&& !(cell.registering && !cell.waking) ==> post == cell && next is Recover
                },
                Registration::Recover => {
                    &&& post.waker is None
                    &&& post.registering == cell.registering
                    &&& post.waking == cell.waking
                    &&& next == Registration::Reset(cell.waker)
                },
                Registration::Reset(w) => {
                    &&& !post.registering
                    &&& !post.waking
                    &&& post.waker == cell.waker
                    &&& next == Registration::Deliver(w)
                },
                Registration::Deliver(w) => post == cell && next == at,
            }
        }),
{
}

/// A wake marks the cell, and takes the waker only if it found the cell free.
pub proof fn law_waking_access(cell: WakerState, at: Waking)
    ensures
        ({
            let post = cell.after_waking(at);
            let next = cell.next_waking(at);
            &&& post.registering == cell.registering
            &&& match at {
                Waking::Claim => {
                    &&& post.waking
                    &&& post.waker == cell.waker
                    &&& !cell.registering && !cell.waking <==> next is Take
                    &&& cell.registering || cell.waking <==> next == Waking::Deliver(None)
                },
                Waking::Take => {
                    &&& post.waking == cell.waking
                    &&& post.waker is None
                    &&& next == Waking::Release(cell.waker)
                },
                Waking::Release(w) => {
                    &&& !post.waking
                    &&& post.waker == cell.waker
                    &&& next == Waking::Deliver(w)
                },
                Waking::Deliver(w) => post == cell && next == at,
            }
        }),
{
}

/// A publication stores its values first, and always goes on to signal the
/// consumer. Signalling touches only the consumer's place and the wakers that
/// are due.
pub proof fn law_publish_access<T>(pre: State<T>, at: Publish, post: State<T>)
    requires
        pre.publish_access(at, post),
    ensures
        ({
            let next = pre.next_publish(at);
            match at {
                Publish::Store(n) => {
                    &&& post.sent == pre.sent + pre.staged(n as int)
                    &&& post == (State { sent: post.sent, slots: post.slots, ..pre })
                    &&& next == Publish::Signal(Signal::Check)
                },
                Publish::Signal(Signal::Wake(Waking::Deliver(w))) => {
                    &&& post == (State { due: post.due, ..pre })
                    &&& w is None ==> post.due == pre.due
                    &&& w matches Some(waker) ==> post.due == pre.due.push(waker)
                    &&& next is Done
                },
                Publish::Signal(signal) => {
                    &&& post == (State { consumer: post.consumer, ..pre })
                    &&& post.consumer == pre.consumer.after_signal(signal)
                    &&& next == Publish::Signal(pre.consumer.next_signal(signal))
                },
                Publish::Done => post == pre && next is Done,
            }
        }),
{
}

/// A return of emptied slots stores the counter first, and always goes on to
/// signal the producer. Signalling touches only the producer's place and the
/// wakers that are due.
pub proof fn law_hand_back_access<T>(pre: State<T>, at: HandBack)
    ensures
        ({
            let post = pre.after_hand_back(at);
            let next = pre.next_hand_back(at);
            match at {
                HandBack::Store => {
                    &&& post.freed == pre.taken
                    &&& post == (State { freed: post.freed, ..pre })
                    &&& next == HandBack::Signal(Signal::Check)
                },
                HandBack::Signal(Signal::Wake(Waking::Deliver(w))) => {
                    &&& post == (State { due: post.due, ..pre })
                    &&& w is None ==> post.due == pre.due
                    &&& w matches Some(waker) ==> post.due == pre.due.push(waker)
                    &&& next is Done
                },
                HandBack::Signal(signal) => {
                    &&& post == (State { producer: post.producer, ..pre })
                    &&& post.producer == pre.producer.after_signal(signal)
                    &&& next == HandBack::Signal(pre.producer.next_signal(signal))
                },
                HandBack::Done => post == pre && next is Done,
            }
        }),
{
}

/// A half that leaves says so first, and always goes on to wake the other,
/// without a look at the flag.
pub proof fn law_leave_access<T>(pre: State<T>, at: Leave)
    ensures
        ({
            let post = pre.after_producer_leave(at);
            let next = pre.next_producer_leave(at);
            match at {
                Leave::Clear => {
                    &&& !post.producer_alive
                    &&& post == (State { producer_alive: false, ..pre })
                    &&& next == Leave::Wake(Waking::Claim)
                },
                Leave::Wake(Waking::Deliver(w)) => {
                    &&& post == (State { due: post.due, ..pre })
                    &&& w is None ==> post.due == pre.due
                    &&& w matches Some(waker) ==> post.due == pre.due.push(waker)
                    &&& next is Done
                },
                Leave::Wake(w) => {
                    &&& post == (State { consumer: post.consumer, ..pre })
                    &&& post.consumer.wake_pending == pre.consumer.wake_pending
                    &&& post.consumer.cell == pre.consumer.cell.after_waking(w)
                    &&& next == Leave::Wake(pre.consumer.cell.next_waking(w))
                },
                Leave::Done => post == pre && next is Done,
            }
        }),
        ({
            let post = pre.after_consumer_leave(at);
            let next = pre.next_consumer_leave(at);
            match at {
                Leave::Clear => {
                    &&& !post.consumer_alive
                    &&& post == (State { consumer_alive: false, ..pre })
                    &&& next == Leave::Wake(Waking::Claim)
                },
                Leave::Wake(Waking::Deliver(w)) => {
                    &&& post == (State { due: post.due, ..pre })
                    &&& w is None ==> post.due == pre.due
                    &&& w matches Some(waker) ==> post.due == pre.due.push(waker)
                    &&& next is Done
                },
                Leave::Wake(w) => {
                    &&& post == (State { producer: post.producer, ..pre })
                    &&& post.producer.wake_pending == pre.producer.wake_pending
                    &&& post.producer.cell == pre.producer.cell.after_waking(w)
                    &&& next == Leave::Wake(pre.producer.cell.next_waking(w))
                },
                Leave::Done => post == pre && next is Done,
            }
        }),
{
}

/// A publication, of however many values, appends them in order and changes
/// nothing else of what was sent and taken. If the consumer has asked to be
/// woken, its request is answered: the waker that it stored becomes due, after
/// those that are due already, and its place is empty again. A side that is in
/// the middle of storing its waker finds the wake left there instead. If it has
/// not asked, nobody is woken.
pub proof fn law_publication<T>(pre: State<T>, values: Seq<T>, post: State<T>)
    requires
        pre.published(values, post),
    ensures
        post.sent == pre.sent + values,
        post.capacity == pre.capacity,
        post.taken == pre.taken,
        post.freed == pre.freed,
        post.producer_alive == pre.producer_alive,
        post.consumer_alive == pre.consumer_alive,
        post.producer == pre.producer,
        !pre.consumer.wake_pending ==> post.consumer == pre.consumer && post.due == pre.due,
        pre.consumer.wake_pending ==> !post.consumer.wake_pending,
        ({
            let cell = pre.consumer.cell;
            pre.consumer.wake_pending ==> if cell.registering || cell.waking {
                &&& post.due == pre.due
                &&& post.consumer.cell == (WakerState { waking: true, ..cell })
            } else {
                &&& cell.waker matches Some(w) ==> post.due == pre.due.push(w)
                &&& cell.waker is None ==> post.due == pre.due
                &&& post.consumer.cell == (WakerState { waker: None, ..cell })
            }
        }),
{
}

/// Taking elements and handing their slots back takes just the oldest, however
/// many stay queued, and frees every slot that has been emptied. A producer that
/// has asked to be woken is woken, in the same way as a consumer is by a
/// publication.
pub proof fn law_consumption<T>(pre: State<T>, n: int, post: State<T>)
    requires
        pre.consumed(n, post),
    ensures
        post.taken == pre.taken + n,
        post.freed == pre.taken + n,
        post.sent == pre.sent,
        post.capacity == pre.capacity,
        post.producer_alive == pre.producer_alive,
        post.consumer_alive == pre.consumer_alive,
        post.consumer == pre.consumer,
        !pre.producer.wake_pending ==> post.producer == pre.producer && post.due == pre.due,
        pre.producer.wake_pending ==> !post.producer.wake_pending,
        ({
            let cell = pre.producer.cell;
            pre.producer.wake_pending ==> if cell.registering || cell.waking {
                &&& post.due == pre.due
                &&& post.producer.cell == (WakerState { waking: true, ..cell })
            } else {
                &&& cell.waker matches Some(w) ==> post.due == pre.due.push(w)
                &&& cell.waker is None ==> post.due == pre.due
                &&& post.producer.cell == (WakerState { waker: None, ..cell })
            }
        }),
        forall|k: int|
            pre.taken <= k < pre.taken + n ==> #[trigger] post.slot(k) == Slot::<T>::Vacant,
        forall|k: int|
            pre.taken + n <= k < pre.taken + pre.capacity ==> #[trigger] post.slot(k) == pre.slot(
                k,
            ),
{
}

/// A commit of any elements does just what taking them and handing their slots
/// back does, and one of none does nothing.
pub proof fn law_commit<T>(pre: State<T>, n: int, post: State<T>)
    requires
        pre.committed(n, post),
        0 <= n,
    ensures
        n == 0 ==> post == pre,
        n > 0 ==> {
            let cell = pre.producer.cell;
            &&& post.taken == pre.taken + n
            &&& post.freed == pre.taken + n
            &&& post.sent == pre.sent
            &&& post.capacity == pre.capacity
            &&& post.producer_alive == pre.producer_alive
            &&& post.consumer_alive == pre.consumer_alive
            &&& post.consumer == pre.consumer
            &&& if !pre.producer.wake_pending {
                post.producer == pre.producer && post.due == pre.due
            } else if cell.registering || cell.waking {
                &&& post.due == pre.due
                &&& !post.producer.wake_pending
                &&& post.producer.cell == (WakerState { waking: true, ..cell })
            } else {
                &&& cell.waker matches Some(w) ==> post.due == pre.due.push(w)
                &&& cell.waker is None ==> post.due == pre.due
                &&& !post.producer.wake_pending
                &&& post.producer.cell == (WakerState { waker: None, ..cell })
            }
            &&& forall|k: int|
                pre.taken <= k < pre.taken + n ==> #[trigger] post.slot(k) == Slot::<T>::Vacant
            &&& forall|k: int|
                pre.taken + n <= k < pre.taken + pre.capacity ==> #[trigger] post.slot(k)
                    == pre.slot(k)
        },
{
    if n > 0 {
        law_consumption(pre, n, post);
    }
}

/// Handing slots back frees all that have been emptied, takes nothing more, and
/// wakes a producer that has asked for that.
pub proof fn law_hand_back<T>(pre: State<T>)
    ensures
        ({
            let post = pre.handed_back();
            let cell = pre.producer.cell;
            &&& post == (State {
                freed: pre.taken,
                producer: post.producer,
                due: post.due,
                ..pre
            })
            &&& if !pre.producer.wake_pending {
                post.producer == pre.producer && post.due == pre.due
            } else if cell.registering || cell.waking {
                &&& post.due == pre.due
                &&& !post.producer.wake_pending
                &&& post.producer.cell == (WakerState { waking: true, ..cell })
            } else {
                &&& cell.waker matches Some(w) ==> post.due == pre.due.push(w)
                &&& cell.waker is None ==> post.due == pre.due
                &&& !post.producer.wake_pending
                &&& post.producer.cell == (WakerState { waker: None, ..cell })
            }
        }),
{
}

/// Taking elements without handing their slots back empties the slots and
/// changes nothing else.
pub proof fn law_taking<T>(pre: State<T>, n: int, post: State<T>)
    requires
        pre.emptied(n, post),
    ensures
        post == (State { taken: pre.taken + n, slots: post.slots, ..pre }),
        forall|k: int|
            pre.taken <= k < pre.taken + n ==> #[trigger] post.slot(k) == Slot::<T>::Vacant,
        forall|k: int|
            pre.taken + n <= k < pre.taken + pre.capacity ==> #[trigger] post.slot(k) == pre.slot(
                k,
            ),
{
}

/// A producer that leaves is gone, whatever is queued, and what is queued stays.
/// The waker in the consumer's place becomes due, whether the consumer has asked
/// for that or not.
pub proof fn law_producer_leaves<T>(pre: State<T>)
    ensures
        ({
            let post = pre.producer_left();
            let cell = pre.consumer.cell;
            &&& !post.producer_alive
            &&& post == (State {
                producer_alive: false,
                consumer: post.consumer,
                due: post.due,
                ..pre
            })
            &&& post.consumer.wake_pending == pre.consumer.wake_pending
            &&& if cell.registering || cell.waking {
                &&& post.due == pre.due
                &&& post.consumer.cell == (WakerState { waking: true, ..cell })
            } else {
                &&& cell.waker matches Some(w) ==> post.due == pre.due.push(w)
                &&& cell.waker is None ==> post.due == pre.due
                &&& post.consumer.cell == (WakerState { waker: None, ..cell })
            }
        }),
{
}

/// The same of a consumer that leaves.
pub proof fn law_consumer_leaves<T>(pre: State<T>)
    ensures
        ({
            let post = pre.consumer_left();
            let cell = pre.producer.cell;
            &&& !post.consumer_alive
            &&& post == (State {
                consumer_alive: false,
                producer: post.producer,
                due: post.due,
                ..pre
            })
            &&& post.producer.wake_pending == pre.producer.wake_pending
            &&& if cell.registering || cell.waking {
                &&& post.due == pre.due
                &&& post.producer.cell == (WakerState { waking: true, ..cell })
            } else {
                &&& cell.waker matches Some(w) ==> post.due == pre.due.push(w)
                &&& cell.waker is None ==> post.due == pre.due
                &&& post.producer.cell == (WakerState { waker: None, ..cell })
            }
        }),
{
}

/// A consumer that goes to sleep has asked to be woken, and its waker is in its
/// place, instead of the one stored before. If a wake is under way, the waker is
/// due at once.
pub proof fn law_consumer_parks<T>(pre: State<T>, waker: Waker)
    ensures
        ({
            let post = pre.consumer_parked(waker);
            let cell = pre.consumer.cell;
            &&& post == (State { consumer: post.consumer, due: post.due, ..pre })
            &&& post.consumer.wake_pending
            &&& if cell.registering {
                post.consumer.cell == cell && post.due == pre.due
            } else if cell.waking {
                post.consumer.cell == cell && post.due == pre.due.push(waker)
            } else {
                &&& post.consumer.cell == (WakerState { waker: Some(waker), ..cell })
                &&& post.due == pre.due
            }
        }),
{
}

/// The same of a producer that goes to sleep.
pub proof fn law_producer_parks<T>(pre: State<T>, waker: Waker)
    ensures
        ({
            let post = pre.producer_parked(waker);
            let cell = pre.producer.cell;
            &&& post == (State { producer: post.producer, due: post.due, ..pre })
            &&& post.producer.wake_pending
            &&& if cell.registering {
                post.producer.cell == cell && post.due == pre.due
            } else if cell.waking {
                post.producer.cell == cell && post.due == pre.due.push(waker)
            } else {
                &&& post.producer.cell == (WakerState { waker: Some(waker), ..cell })
                &&& post.due == pre.due
            }
        }),
{
}

/// A consumer that has gone to sleep is woken by the next publication, of
/// however many values, and by the departure of the producer, and after that
/// nobody is woken on its behalf until it goes to sleep again.
pub proof fn law_sleeping_consumer_is_woken<T>(
    pre: State<T>,
    waker: Waker,
    values: Seq<T>,
    published: State<T>,
    again: Seq<T>,
    published_again: State<T>,
)
    requires
        !pre.consumer.cell.registering,
        !pre.consumer.cell.waking,
        pre.consumer_parked(waker).published(values, published),
        published.published(again, published_again),
    ensures
        published.due == pre.due.push(waker),
        published_again.due == published.due,
        pre.consumer_parked(waker).producer_left().due == pre.due.push(waker),
        published.producer_left().due == published.due,
{
    law_consumer_parks(pre, waker);
    law_publication(pre.consumer_parked(waker), values, published);
    law_publication(published, again, published_again);
    law_producer_leaves(pre.consumer_parked(waker));
    law_producer_leaves(published);
}

/// A producer that has gone to sleep is woken by the next commit, of however
/// many elements, and by the departure of the consumer, and after that nobody is
/// woken on its behalf until it goes to sleep again.
pub proof fn law_sleeping_producer_is_woken<T>(
    pre: State<T>,
    waker: Waker,
    n: int,
    committed: State<T>,
    m: int,
    committed_again: State<T>,
)
    requires
        !pre.producer.cell.registering,
        !pre.producer.cell.waking,
        0 < n,
        0 <= m,
        pre.producer_parked(waker).committed(n, committed),
        committed.committed(m, committed_again),
    ensures
        committed.due == pre.due.push(waker),
        committed_again.due == committed.due,
        pre.producer_parked(waker).consumer_left().due == pre.due.push(waker),
        committed.consumer_left().due == committed.due,
{
    law_producer_parks(pre, waker);
    law_commit(pre.producer_parked(waker), n, committed);
    law_commit(committed, m, committed_again);
    law_consumer_leaves(pre.producer_parked(waker));
    law_consumer_leaves(committed);
}

/// Publishing in parts leaves just what publishing at once leaves: the queue,
/// the slots, both waiting places, and the wakers that are due.
pub proof fn law_publish_in_parts<T>(
    pre: State<T>,
    first: Seq<T>,
    second: Seq<T>,
    mid: State<T>,
    stepwise: State<T>,
    at_once: State<T>,
)
    requires
        pre.valid(),
        mid.valid(),
        stepwise.valid(),
        at_once.valid(),
        pre.published(first, mid),
        mid.published(second, stepwise),
        pre.published(first + second, at_once),
    ensures
        stepwise == at_once,
{
    let w = pre.sent.len() as int;
    let cap = pre.capacity;
    let a = first.len() as int;
    let b = second.len() as int;
    assert(pre.sent + first + second =~= pre.sent + (first + second));
    assert forall|k: int| w <= k < w + cap implies #[trigger] stepwise.slot(k) == at_once.slot(
        k,
    ) by {
        if k < w + a + b {
            assert(stepwise.slot(k).live() == Some(stepwise.sent[k]));
            assert(at_once.slot(k).live() == Some(at_once.sent[k]));
        } else {
            assert(mid.slot(k) == pre.slot(k));
            assert(stepwise.slot(k) == mid.slot(k));
            assert(at_once.slot(k) == pre.slot(k));
        }
    }
    assert forall|j: int| 0 <= j < cap implies #[trigger] stepwise.slots[j] == at_once.slots[j] by {
        let k = crate::laws::lemma_slot_in_round(w, cap, j);
        assert(stepwise.slot(k) == at_once.slot(k));
    }
    assert(stepwise.slots =~= at_once.slots);
    law_publication(pre, first, mid);
    law_publication(mid, second, stepwise);
    law_publication(pre, first + second, at_once);
}

/// Handing out the wakers that are due leaves none due and changes nothing else.
pub proof fn law_due_taken<T>(s: State<T>)
    ensures
        s.due_taken().due.len() == 0,
        s.due_taken() == (State { due: s.due_taken().due, ..s }),
{
}

/// Dropping what is queued leaves no element in any slot, and leaves the slots
/// that the producer may fill as they were.
pub proof fn law_drained<T>(pre: State<T>, post: State<T>)
    requires
        pre.valid(),
        post.valid(),
        pre.drained(post),
    ensures
        post.taken == pre.sent.len(),
        post == (State { taken: post.taken, slots: post.slots, ..pre }),
        forall|j: int| 0 <= j < pre.capacity ==> (#[trigger] post.slots[j]).live() is None,
        forall|k: int|
            pre.taken <= k < pre.sent.len() ==> #[trigger] post.slot(k) == Slot::<T>::Vacant,
        forall|k: int|
            pre.sent.len() <= k < pre.freed + pre.capacity ==> #[trigger] post.slot(k) == pre.slot(
                k,
            ),
{
    assert forall|j: int| 0 <= j < pre.capacity implies (#[trigger] post.slots[j]).live()
        is None by {
        let k = crate::laws::lemma_slot_in_round(post.sent.len() as int, pre.capacity, j);
        assert(post.slot(k).live() is None);
    }
}

} // verus!
