//! Waiting for the other half: wakers, flags and the order of the accesses.

use spsc::atomic_waker::{AtomicWaker, Registration, Waking};
use spsc::channel;
use spsc::consumer::{Consumer, TryRecvError};
use spsc::inner::Inner;
use spsc::parking::{Leave, Readiness};
use spsc::producer::Producer;
use spsc::read_steps::{HandBack, Pop, ReadPoll};
use spsc::write_steps::{Publish, Push, WritePoll};
use std::sync::atomic::{AtomicUsize, Ordering};
use std::sync::Arc;
use std::task::{Wake, Waker};

/// A task that counts how often it is woken.
struct Task(AtomicUsize);

impl Wake for Task {
    fn wake(self: Arc<Self>) {
        self.0.fetch_add(1, Ordering::Relaxed);
    }
}

fn task() -> (Arc<Task>, Waker) {
    let task = Arc::new(Task(AtomicUsize::new(0)));
    let waker = Waker::from(task.clone());
    (task, waker)
}

fn times_woken(task: &Task) -> usize {
    task.0.load(Ordering::Relaxed)
}

/// Wakes the tasks that are due and says how many there were.
fn wake_due(ch: &mut Inner<u32>) -> usize {
    let due = ch.take_due();
    let n = due.len();
    for waker in due {
        waker.wake();
    }
    n
}

#[test]
fn waker_is_stored_and_woken_once() {
    let (a, waker) = task();
    let mut cell = AtomicWaker::new();
    let mut due = Vec::new();
    cell.register(waker.clone(), &mut due);
    assert!(due.is_empty());
    cell.wake(&mut due);
    assert_eq!(due.len(), 1);
    assert!(due[0].will_wake(&waker));
    cell.wake(&mut due);
    assert_eq!(due.len(), 1, "the waker is gone after the first wake");
    for w in due {
        w.wake();
    }
    assert_eq!(times_woken(&a), 1);
}

#[test]
fn later_waker_replaces_earlier_one() {
    let (_a, first) = task();
    let (_b, second) = task();
    let mut cell = AtomicWaker::new();
    let mut due = Vec::new();
    cell.register(first.clone(), &mut due);
    cell.register(second.clone(), &mut due);
    cell.wake(&mut due);
    assert_eq!(due.len(), 1);
    assert!(due[0].will_wake(&second));
    assert!(!due[0].will_wake(&first));
}

#[test]
fn registration_during_a_wake_is_due_at_once() {
    let (_a, waker) = task();
    let mut cell = AtomicWaker::new();
    let mut due = Vec::new();
    // The wake has locked the cell and not yet released it.
    let at = cell.wake_step(Waking::Claim);
    assert!(matches!(at, Waking::Take));
    cell.register(waker.clone(), &mut due);
    assert_eq!(due.len(), 1);
    assert!(due[0].will_wake(&waker));
}

#[test]
fn wake_during_a_registration_is_passed_on() {
    let (_a, waker) = task();
    let mut cell = AtomicWaker::new();
    let at = cell.register_step(Registration::Claim(waker.clone()));
    let at = cell.register_step(at);
    assert!(matches!(at, Registration::Finish));
    // The wake finds the cell locked and leaves it to the registering side.
    assert!(matches!(cell.wake_step(Waking::Claim), Waking::Deliver(None)));
    let at = cell.register_step(at);
    assert!(matches!(at, Registration::Recover));
    let at = cell.register_step(at);
    assert!(matches!(at, Registration::Reset(Some(_))));
    match cell.register_step(at) {
        Registration::Deliver(Some(w)) => assert!(w.will_wake(&waker)),
        _ => panic!("expected the waker back"),
    }
    // The cell is free again.
    let mut due = Vec::new();
    cell.register(waker, &mut due);
    assert!(due.is_empty());
    cell.wake(&mut due);
    assert_eq!(due.len(), 1);
}

#[test]
fn wake_during_a_wake_does_nothing() {
    let (_a, waker) = task();
    let mut cell = AtomicWaker::new();
    let mut due = Vec::new();
    cell.register(waker, &mut due);
    let at = cell.wake_step(Waking::Claim);
    cell.wake(&mut due);
    assert!(due.is_empty());
    let at = cell.wake_step(at);
    assert!(matches!(at, Waking::Release(Some(_))));
    assert!(matches!(cell.wake_step(at), Waking::Deliver(Some(_))));
}

#[test]
fn parked_consumer_is_woken_by_a_push() {
    let (mut ch, mut tx, mut rx) = channel::<u32>(4);
    let (a, waker) = task();
    assert_eq!(rx.poll_readable(&mut ch, waker.clone(), 1), Readiness::Pending);
    tx.try_push(&mut ch, 7).unwrap();
    assert_eq!(wake_due(&mut ch), 1);
    assert_eq!(times_woken(&a), 1);
    // Nobody waits any more.
    tx.try_push(&mut ch, 8).unwrap();
    assert_eq!(wake_due(&mut ch), 0);
    assert_eq!(rx.poll_readable(&mut ch, waker, 2), Readiness::Ready);
    assert_eq!(rx.read_handle().len(), 2);
}

#[test]
fn parked_producer_is_woken_by_a_pop() {
    let (mut ch, mut tx, mut rx) = channel::<u32>(2);
    tx.try_push(&mut ch, 1).unwrap();
    tx.try_push(&mut ch, 2).unwrap();
    let (a, waker) = task();
    assert_eq!(tx.poll_writable(&mut ch, waker.clone(), 2), Readiness::Pending);
    assert_eq!(rx.try_pop(&mut ch), Ok(1));
    assert_eq!(wake_due(&mut ch), 1);
    // One slot is not enough.
    assert_eq!(tx.poll_writable(&mut ch, waker.clone(), 2), Readiness::Pending);
    let mut h = rx.try_bulk_read(&ch).unwrap();
    h.commit(&mut ch, 1);
    assert_eq!(wake_due(&mut ch), 1);
    assert_eq!(times_woken(&a), 2);
    assert_eq!(tx.poll_writable(&mut ch, waker, 2), Readiness::Ready);
    assert_eq!(tx.write_handle(&ch).capacity(), 2);
}

#[test]
fn parked_consumer_is_woken_when_the_producer_leaves() {
    let (mut ch, tx, mut rx) = channel::<u32>(4);
    let (a, waker) = task();
    assert_eq!(rx.poll_readable(&mut ch, waker.clone(), 1), Readiness::Pending);
    tx.close(&mut ch);
    assert_eq!(wake_due(&mut ch), 1);
    assert_eq!(times_woken(&a), 1);
    assert_eq!(rx.poll_readable(&mut ch, waker, 1), Readiness::Closed);
}

#[test]
fn parked_producer_is_woken_when_the_consumer_leaves() {
    let (mut ch, mut tx, rx) = channel::<u32>(1);
    tx.try_push(&mut ch, 1).unwrap();
    let (a, waker) = task();
    assert_eq!(tx.poll_writable(&mut ch, waker.clone(), 1), Readiness::Pending);
    rx.close(&mut ch);
    assert_eq!(wake_due(&mut ch), 1);
    assert_eq!(times_woken(&a), 1);
    assert_eq!(tx.poll_writable(&mut ch, waker, 1), Readiness::Closed);
}

#[test]
fn any_element_is_enough_once_the_producer_is_gone() {
    let (mut ch, mut tx, mut rx) = channel::<u32>(8);
    tx.try_push(&mut ch, 7).unwrap();
    assert_eq!(rx.check_readable(&ch, 4), Readiness::Pending);
    tx.close(&mut ch);
    assert_eq!(rx.check_readable(&ch, 4), Readiness::Ready);
    let mut h = rx.read_handle();
    assert_eq!(h.len(), 1);
    h.commit(&mut ch, 1);
    assert!(h.is_empty());
    assert_eq!(rx.check_readable(&ch, 1), Readiness::Closed);
}

#[test]
fn free_slots_are_enough_even_if_the_consumer_is_gone() {
    let (mut ch, mut tx, rx) = channel::<u32>(2);
    rx.close(&mut ch);
    assert_eq!(tx.check_writable(&ch, 2), Readiness::Ready);
    tx.write_handle(&ch);

    let (mut ch, mut tx, rx) = channel::<u32>(2);
    tx.try_push(&mut ch, 1).unwrap();
    assert_eq!(tx.check_writable(&ch, 2), Readiness::Pending);
    rx.close(&mut ch);
    assert_eq!(tx.check_writable(&ch, 2), Readiness::Closed);
}

/// Runs `body` once for every sequence of choices that it can be given. `body`
/// asks for a choice whenever both sides can go on.
fn for_all_schedules(mut body: impl FnMut(&mut dyn FnMut() -> bool)) -> usize {
    let mut prefix: Vec<bool> = Vec::new();
    let mut runs = 0;
    loop {
        let mut taken: Vec<bool> = Vec::new();
        body(&mut || {
            let choice = prefix.get(taken.len()).copied().unwrap_or(false);
            taken.push(choice);
            choice
        });
        runs += 1;
        while taken.last() == Some(&true) {
            taken.pop();
        }
        if taken.pop().is_none() {
            return runs;
        }
        taken.push(true);
        prefix = taken;
    }
}

/// What the producer does while the consumer looks for an element.
enum Producing {
    Push(Producer<u32>, Push<u32>),
    Leave(Producer<u32>, Leave),
}

impl Producing {
    fn is_done(&self) -> bool {
        matches!(
            self,
            Producing::Push(_, Push::Done(_)) | Producing::Leave(_, Leave::Done)
        )
    }

    fn step(self, ch: &mut Inner<u32>) -> Producing {
        match self {
            Producing::Push(mut tx, at) => {
                let at = tx.push_step(ch, at);
                Producing::Push(tx, at)
            }
            Producing::Leave(tx, at) => {
                let at = tx.leave_step(ch, at);
                Producing::Leave(tx, at)
            }
        }
    }
}

/// Every interleaving of a consumer that looks for an element with a producer
/// that pushes one or leaves.
fn consumer_against(leaves: bool) -> (usize, usize) {
    let mut slept = 0;
    let runs = for_all_schedules(|choose| {
        let (mut ch, tx, mut rx) = channel::<u32>(2);
        let (_a, waker) = task();
        let mut other = if leaves {
            Producing::Leave(tx, Leave::Clear)
        } else {
            Producing::Push(tx, Push::Alive(5))
        };
        let mut at = ReadPoll::Alive(waker.clone());
        loop {
            let looking = !matches!(at, ReadPoll::Done(_));
            let producing = !other.is_done();
            if !looking && !producing {
                break;
            }
            if looking && (!producing || choose()) {
                at = rx.poll_readable_step(&mut ch, 1, at);
            } else {
                other = other.step(&mut ch);
            }
        }
        let due = ch.take_due();
        match at {
            ReadPoll::Done(Readiness::Pending) => {
                slept += 1;
                assert!(due.iter().any(|w| w.will_wake(&waker)), "sleeps and is not woken");
            }
            ReadPoll::Done(readiness) => {
                let told = if leaves { Readiness::Closed } else { Readiness::Ready };
                assert_eq!(readiness, told);
            }
            _ => panic!("the loop ends when the look is done"),
        }
        assert_eq!(rx.len(&ch), if leaves { 0 } else { 1 });
    });
    (runs, slept)
}

#[test]
fn consumer_never_sleeps_through_a_push() {
    let (runs, slept) = consumer_against(false);
    assert!(slept > 0 && slept < runs);
}

#[test]
fn consumer_never_sleeps_through_a_departure() {
    let (runs, slept) = consumer_against(true);
    assert!(slept > 0 && slept < runs);
}

/// What the consumer does while the producer looks for a free slot.
enum Consuming {
    Pop(Consumer<u32>, Pop<u32>),
    Leave(Consumer<u32>, Leave),
}

impl Consuming {
    fn is_done(&self) -> bool {
        matches!(
            self,
            Consuming::Pop(_, Pop::Done(_)) | Consuming::Leave(_, Leave::Done)
        )
    }

    fn step(self, ch: &mut Inner<u32>) -> Consuming {
        match self {
            Consuming::Pop(mut rx, at) => {
                let at = rx.pop_step(ch, at);
                Consuming::Pop(rx, at)
            }
            Consuming::Leave(rx, at) => {
                let at = rx.leave_step(ch, at);
                Consuming::Leave(rx, at)
            }
        }
    }
}

/// Every interleaving of a producer that looks for a free slot with a consumer
/// that pops or leaves.
fn producer_against(leaves: bool) -> (usize, usize) {
    let mut slept = 0;
    let runs = for_all_schedules(|choose| {
        let (mut ch, mut tx, rx) = channel::<u32>(1);
        tx.try_push(&mut ch, 1).unwrap();
        let (_a, waker) = task();
        let mut other = if leaves {
            Consuming::Leave(rx, Leave::Clear)
        } else {
            Consuming::Pop(rx, Pop::Alive)
        };
        let mut at = WritePoll::Read(waker.clone());
        loop {
            let looking = !matches!(at, WritePoll::Done(_));
            let consuming = !other.is_done();
            if !looking && !consuming {
                break;
            }
            if looking && (!consuming || choose()) {
                at = tx.poll_writable_step(&mut ch, 1, at);
            } else {
                other = other.step(&mut ch);
            }
        }
        let due = ch.take_due();
        match at {
            WritePoll::Done(Readiness::Pending) => {
                slept += 1;
                assert!(due.iter().any(|w| w.will_wake(&waker)), "sleeps and is not woken");
            }
            WritePoll::Done(readiness) => {
                let told = if leaves { Readiness::Closed } else { Readiness::Ready };
                assert_eq!(readiness, told);
            }
            _ => panic!("the loop ends when the look is done"),
        }
        assert_eq!(tx.free(&ch), if leaves { 0 } else { 1 });
    });
    (runs, slept)
}

#[test]
fn producer_never_sleeps_through_a_pop() {
    let (runs, slept) = producer_against(false);
    assert!(slept > 0 && slept < runs);
}

#[test]
fn producer_never_sleeps_through_a_departure() {
    let (runs, slept) = producer_against(true);
    assert!(slept > 0 && slept < runs);
}

#[test]
fn closed_is_told_only_after_the_last_element() {
    // Every interleaving of a push followed by a departure with pops until the
    // channel is found closed.
    let mut seen_empty = 0;
    for_all_schedules(|choose| {
        let (mut ch, tx, mut rx) = channel::<u32>(2);
        let mut other = Producing::Push(tx, Push::Alive(9));
        let mut at = Pop::Alive;
        let mut got = Vec::new();
        let mut tries = 0;
        loop {
            other = match other {
                Producing::Push(tx, Push::Done(_)) => Producing::Leave(tx, Leave::Clear),
                other => other,
            };
            let producing = !other.is_done();
            if producing && (tries > 1 || !choose()) {
                other = other.step(&mut ch);
                continue;
            }
            at = match rx.pop_step(&mut ch, at) {
                Pop::Done(Ok(value)) => {
                    got.push(value);
                    Pop::Alive
                }
                Pop::Done(Err(TryRecvError::Empty)) => {
                    seen_empty += 1;
                    tries += 1;
                    Pop::Alive
                }
                Pop::Done(Err(TryRecvError::Closed)) => break,
                next => next,
            };
        }
        assert_eq!(got, [9]);
    });
    assert!(seen_empty > 0);
}

#[test]
fn publication_and_return_can_be_run_by_hand() {
    let (mut ch, mut tx, mut rx) = channel::<u32>(2);
    let at = tx.push_step(&mut ch, Push::Alive(3));
    let at = tx.push_step(&mut ch, at);
    assert!(matches!(at, Push::Publish(Publish::Store(1))));
    // Written, but not yet published.
    assert_eq!(rx.len(&ch), 0);
    assert_eq!(rx.try_pop(&mut ch), Err(TryRecvError::Empty));
    let at = tx.push_step(&mut ch, at);
    assert_eq!(rx.len(&ch), 1);
    let at = tx.push_step(&mut ch, at);
    let at = tx.push_step(&mut ch, at);
    assert!(matches!(at, Push::Done(Ok(()))));

    let at = rx.pop_step(&mut ch, Pop::Alive);
    let at = rx.pop_step(&mut ch, at);
    let at = rx.pop_step(&mut ch, at);
    assert!(matches!(at, Pop::HandBack(3, HandBack::Store)));
    // Taken, but the slot has not been handed back.
    assert_eq!(rx.len(&ch), 0);
    assert_eq!(tx.free(&ch), 1);
    rx.pop_step(&mut ch, at);
    assert_eq!(tx.free(&ch), 2);
}

/// Two tasks that run only when they have been woken stream through a small
/// channel. A lost wake-up would leave both asleep.
#[test]
fn tasks_that_run_only_when_woken_make_progress() {
    const N: u32 = 10_000;
    let (mut ch, mut tx, mut rx) = channel::<u32>(4);
    let (producer, producer_waker) = task();
    let (consumer, consumer_waker) = task();
    let mut sent = 0;
    let mut got = 0;
    let mut runs = (0, 0);
    while got < N {
        let mut ran = false;
        if sent < N && times_woken(&producer) >= runs.0 {
            ran = true;
            runs.0 = times_woken(&producer) + 1;
            while sent < N {
                match tx.poll_writable(&mut ch, producer_waker.clone(), 1) {
                    Readiness::Ready => {
                        let mut h = tx.write_handle(&ch);
                        let (a, _) = h.as_uninit_slices_mut(&mut ch);
                        a[0].write(sent);
                        h.commit(&mut ch, 1);
                        sent += 1;
                    }
                    Readiness::Pending => break,
                    Readiness::Closed => panic!("the consumer is there"),
                }
            }
            wake_due(&mut ch);
        }
        if times_woken(&consumer) >= runs.1 {
            ran = true;
            runs.1 = times_woken(&consumer) + 1;
            while got < N {
                match rx.poll_readable(&mut ch, consumer_waker.clone(), 1) {
                    Readiness::Ready => {
                        let mut h = rx.read_handle();
                        let (a, b) = h.as_slices(&ch);
                        for slot in a.iter().chain(b.iter()) {
                            assert_eq!(slot.get(), Some(&got));
                            got += 1;
                        }
                        let n = h.len();
                        h.commit(&mut ch, n);
                    }
                    Readiness::Pending => break,
                    Readiness::Closed => panic!("the producer is there"),
                }
            }
            wake_due(&mut ch);
        }
        assert!(ran, "both tasks sleep");
    }
}
