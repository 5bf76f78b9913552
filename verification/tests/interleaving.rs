//! The two halves on threads of their own, each access under a lock of its
//! own, with the order of the accesses chosen at random.

use shuttle::scheduler::RandomScheduler;
use shuttle::sync::{Arc, Mutex};
use shuttle::{check_random, thread, Config, MaxSteps, Runner};
use spsc::inner::Inner;
use spsc::parking::Leave;
use spsc::read_steps::Pop;
use spsc::write_steps::Push;
use spsc::{channel, Consumer, Producer, TryRecvError, TrySendError};
use std::sync::atomic::{AtomicBool, Ordering};

/// Number of randomized schedules per test.
const SCHEDULES: usize = 2000;

type Shared = Arc<Mutex<Inner<u32>>>;

fn shared(capacity: usize) -> (Shared, Producer<u32>, Consumer<u32>) {
    let (ch, tx, rx) = channel::<u32>(capacity);
    (Arc::new(Mutex::new(ch)), tx, rx)
}

/// A push, one access at a time.
fn push(ch: &Shared, tx: &mut Producer<u32>, value: u32) -> Result<(), TrySendError<u32>> {
    let mut at = Push::Alive(value);
    loop {
        match at {
            Push::Done(res) => return res,
            other => at = tx.push_step(&mut ch.lock().unwrap(), other),
        }
    }
}

/// A pop, one access at a time.
fn pop(ch: &Shared, rx: &mut Consumer<u32>) -> Result<u32, TryRecvError> {
    let mut at = Pop::Alive;
    loop {
        match at {
            Pop::Done(res) => return res,
            other => at = rx.pop_step(&mut ch.lock().unwrap(), other),
        }
    }
}

/// The producer leaves, one access at a time.
fn producer_leaves(ch: &Shared, tx: Producer<u32>) {
    let mut at = Leave::Clear;
    while !matches!(at, Leave::Done) {
        at = tx.leave_step(&mut ch.lock().unwrap(), at);
    }
}

/// The consumer leaves, one access at a time.
fn consumer_leaves(ch: &Shared, rx: Consumer<u32>) {
    let mut at = Leave::Clear;
    while !matches!(at, Leave::Done) {
        at = rx.leave_step(&mut ch.lock().unwrap(), at);
    }
}

#[test]
fn try_push_pop_preserves_order() {
    check_random(
        || {
            const N: u32 = 6;
            let (ch, mut tx, mut rx) = shared(4);
            let prod_ch = ch.clone();

            let prod = thread::spawn(move || {
                for i in 0..N {
                    loop {
                        match push(&prod_ch, &mut tx, i) {
                            Ok(()) => break,
                            Err(TrySendError::Full(_)) => thread::yield_now(),
                            Err(TrySendError::Closed(_)) => panic!("closed"),
                        }
                    }
                }
            });

            let mut got = Vec::with_capacity(N as usize);
            while got.len() < N as usize {
                match pop(&ch, &mut rx) {
                    Ok(v) => got.push(v),
                    Err(TryRecvError::Empty) => thread::yield_now(),
                    Err(TryRecvError::Closed) => break,
                }
            }
            prod.join().unwrap();

            let expected: Vec<u32> = (0..N).collect();
            assert_eq!(got, expected, "FIFO order violated");
        },
        SCHEDULES,
    );
}

#[test]
fn closed_consumer_observed_by_producer() {
    check_random(
        || {
            let (ch, mut tx, rx) = shared(2);
            let saw_closed = Arc::new(AtomicBool::new(false));
            let saw_closed_p = saw_closed.clone();
            let prod_ch = ch.clone();

            let prod = thread::spawn(move || {
                for i in 0..10u32 {
                    match push(&prod_ch, &mut tx, i) {
                        Ok(()) => {}
                        Err(TrySendError::Closed(_)) => {
                            saw_closed_p.store(true, Ordering::Relaxed);
                            break;
                        }
                        Err(TrySendError::Full(_)) => thread::yield_now(),
                    }
                }
            });

            // Drop the receiver first thing.
            consumer_leaves(&ch, rx);
            prod.join().unwrap();
            assert!(
                saw_closed.load(Ordering::Relaxed),
                "producer never observed closed receiver"
            );
        },
        SCHEDULES,
    );
}

#[test]
fn shuttle_closed_producer_drains_then_closes() {
    check_random(
        || {
            const N: u32 = 4;
            let (ch, mut tx, mut rx) = shared(8);
            let prod_ch = ch.clone();

            let prod = thread::spawn(move || {
                for i in 0..N {
                    while push(&prod_ch, &mut tx, i).is_err() {
                        thread::yield_now();
                    }
                }
                producer_leaves(&prod_ch, tx);
            });

            let mut got = Vec::new();
            loop {
                match pop(&ch, &mut rx) {
                    Ok(v) => got.push(v),
                    Err(TryRecvError::Empty) => thread::yield_now(),
                    Err(TryRecvError::Closed) => break,
                }
            }
            prod.join().unwrap();
            let expected: Vec<u32> = (0..N).collect();
            assert_eq!(got, expected, "elements lost on producer close");
        },
        SCHEDULES,
    );
}

#[test]
fn bulk_write_read_preserves_order() {
    check_random(
        || {
            const N: u32 = 8;
            let (ch, mut tx, mut rx) = shared(4);
            let prod_ch = ch.clone();

            let prod = thread::spawn(move || {
                let mut sent = 0u32;
                while sent < N {
                    let handle = tx.try_bulk_write(&prod_ch.lock().unwrap());
                    if let Some(mut h) = handle {
                        let cap = h.capacity().min((N - sent) as usize);
                        let mut written = 0usize;
                        {
                            let mut inner = prod_ch.lock().unwrap();
                            let (a, b) = h.as_uninit_slices_mut(&mut inner);
                            for slot in a.iter_mut().chain(b.iter_mut()).take(cap) {
                                slot.write(sent + written as u32);
                                written += 1;
                            }
                        }
                        h.commit(&mut prod_ch.lock().unwrap(), written);
                        sent += written as u32;
                    } else {
                        thread::yield_now();
                    }
                }
            });

            let mut got: Vec<u32> = Vec::with_capacity(N as usize);
            while got.len() < N as usize {
                let handle = rx.try_bulk_read(&ch.lock().unwrap());
                if let Some(mut h) = handle {
                    {
                        let inner = ch.lock().unwrap();
                        let (a, b) = h.as_slices(&inner);
                        got.extend(a.iter().chain(b.iter()).map(|slot| *slot.get().unwrap()));
                    }
                    let n = h.len();
                    h.consume(&mut ch.lock().unwrap(), n);
                } else {
                    thread::yield_now();
                }
            }
            prod.join().unwrap();

            let expected: Vec<u32> = (0..N).collect();
            assert_eq!(got, expected, "bulk FIFO order violated");
        },
        SCHEDULES,
    );
}

#[test]
fn capacity_invariant_holds_during_streaming() {
    check_random(
        || {
            const N: u32 = 6;
            const CAP: usize = 4;
            let (ch, mut tx, mut rx) = shared(CAP);
            assert_eq!(tx.capacity(&ch.lock().unwrap()), CAP);
            let prod_ch = ch.clone();

            let prod = thread::spawn(move || {
                for i in 0..N {
                    while push(&prod_ch, &mut tx, i).is_err() {
                        thread::yield_now();
                    }
                }
            });

            let mut got = Vec::with_capacity(N as usize);
            while got.len() < N as usize {
                let len = rx.len(&ch.lock().unwrap());
                assert!(len <= CAP, "rx.len() = {len} exceeds capacity {CAP}");
                match pop(&ch, &mut rx) {
                    Ok(v) => got.push(v),
                    Err(_) => thread::yield_now(),
                }
            }
            prod.join().unwrap();
            assert_eq!(got, (0..N).collect::<Vec<_>>());
        },
        SCHEDULES,
    );
}

/// A long stream through a small buffer, in one random order of the
/// operations.
#[test]
fn cross_thread_streaming() {
    let mut config = Config::new();
    config.max_steps = MaxSteps::None;
    Runner::new(RandomScheduler::new(1), config).run(|| {
        const N: usize = 100_000;
        let (ch, mut tx, mut rx) = channel::<usize>(64);
        let ch = Arc::new(Mutex::new(ch));
        let prod_ch = ch.clone();

        let prod = thread::spawn(move || {
            for i in 0..N {
                loop {
                    let pushed = tx.try_push(&mut prod_ch.lock().unwrap(), i);
                    match pushed {
                        Ok(()) => break,
                        Err(TrySendError::Full(_)) => thread::yield_now(),
                        Err(TrySendError::Closed(_)) => panic!("consumer dropped"),
                    }
                }
            }
        });

        let mut next = 0usize;
        while next < N {
            let popped = rx.try_pop(&mut ch.lock().unwrap());
            match popped {
                Ok(v) => {
                    assert_eq!(v, next, "out-of-order delivery");
                    next += 1;
                }
                Err(TryRecvError::Empty) => thread::yield_now(),
                Err(TryRecvError::Closed) => panic!("producer dropped early"),
            }
        }
        prod.join().unwrap();
    });
}
