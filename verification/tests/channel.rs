use spsc::consumer::TryRecvError;
use spsc::producer::TrySendError;
use spsc::slot::Slot;
use spsc::channel;
use std::sync::atomic::{AtomicUsize, Ordering};

/// The elements in a run of slots, all of which hold one.
fn elements(run: &[Slot<u32>]) -> Vec<u32> {
    run.iter().map(|slot| *slot.get().unwrap()).collect()
}

#[test]
fn smoke_single_thread() {
    let (mut ch, mut tx, mut rx) = channel::<u32>(4);
    assert_eq!(tx.capacity(&ch), 4);
    assert_eq!(rx.capacity(&ch), 4);
    assert_eq!(rx.len(&ch), 0);

    tx.try_push(&mut ch, 1).unwrap();
    tx.try_push(&mut ch, 2).unwrap();
    tx.try_push(&mut ch, 3).unwrap();
    tx.try_push(&mut ch, 4).unwrap();
    assert!(matches!(tx.try_push(&mut ch, 5), Err(TrySendError::Full(5))));

    assert_eq!(rx.try_pop(&mut ch), Ok(1));
    assert_eq!(rx.try_pop(&mut ch), Ok(2));
    tx.try_push(&mut ch, 5).unwrap();
    tx.try_push(&mut ch, 6).unwrap();
    assert!(matches!(tx.try_push(&mut ch, 7), Err(TrySendError::Full(7))));

    assert_eq!(rx.try_pop(&mut ch), Ok(3));
    assert_eq!(rx.try_pop(&mut ch), Ok(4));
    assert_eq!(rx.try_pop(&mut ch), Ok(5));
    assert_eq!(rx.try_pop(&mut ch), Ok(6));
    assert_eq!(rx.try_pop(&mut ch), Err(TryRecvError::Empty));
}

#[test]
fn capacity_rounds_up() {
    let (ch, tx, _rx) = channel::<u8>(5);
    assert_eq!(tx.capacity(&ch), 8);
}

#[test]
fn bulk_write_read_wraps_around() {
    let (mut ch, mut tx, mut rx) = channel::<u32>(8);

    // Fill 5 elements.
    {
        let mut h = tx.try_bulk_write(&ch).unwrap();
        let (a, b) = h.as_uninit_slices_mut(&mut ch);
        assert_eq!(a.len() + b.len(), 8);
        for (i, slot) in a.iter_mut().take(5).enumerate() {
            slot.write(100 + i as u32);
        }
        h.commit(&mut ch, 5);
    }
    // Drain 4, so that the read counter is at 4.
    {
        let mut h = rx.try_bulk_read(&ch).unwrap();
        assert_eq!(h.len(), 5);
        let (a, b) = h.as_slices(&ch);
        assert_eq!([elements(a), elements(b)].concat(), vec![100, 101, 102, 103, 104]);
        h.consume(&mut ch, 4);
    }
    // Write was at 5, read at 4. Seven more go past the end of the buffer.
    {
        let mut h = tx.try_bulk_write(&ch).unwrap();
        assert_eq!(h.capacity(), 7); // 8 - (5 - 4)
        let (a, b) = h.as_uninit_slices_mut(&mut ch);
        // First run covers slots 5,6,7 (3 elems); second covers 0,1,2,3 (4 elems).
        assert_eq!(a.len(), 3);
        assert_eq!(b.len(), 4);
        for (i, s) in a.iter_mut().enumerate() {
            s.write(200 + i as u32);
        }
        for (i, s) in b.iter_mut().enumerate() {
            s.write(300 + i as u32);
        }
        h.commit(&mut ch, 7);
    }
    // Read everything.
    let mut got = Vec::new();
    while let Some(mut h) = rx.try_bulk_read(&ch) {
        let (a, b) = h.as_slices(&ch);
        got.extend(elements(a));
        got.extend(elements(b));
        let n = h.len();
        h.consume(&mut ch, n);
    }
    assert_eq!(got, vec![104, 200, 201, 202, 300, 301, 302, 303]);
}

#[test]
fn read_handle_slices_split_at_wrap() {
    // Capacity 4. Push 3, drain 3: write=3, read=3. Push 4 more (20..24):
    // write=7, read=3. The live range [3, 7) maps to the slots 3, 0, 1, 2.
    let (mut ch, mut tx, mut rx) = channel::<u32>(4);
    for i in 0..3 {
        tx.try_push(&mut ch, 10 + i).unwrap();
    }
    for _ in 0..3 {
        rx.try_pop(&mut ch).unwrap();
    }
    for i in 0..4 {
        tx.try_push(&mut ch, 20 + i).unwrap();
    }
    let mut h = rx.try_bulk_read(&ch).unwrap();
    assert_eq!(h.len(), 4);
    let (a, b) = h.as_slices(&ch);
    assert_eq!(a.len(), 1, "expected 1-elem first slice covering slot 3");
    assert_eq!(b.len(), 3, "expected 3-elem second slice covering slots 0..3");
    assert_eq!(elements(a), [20], "first slice contents in slot 3 = first pushed value");
    assert_eq!(elements(b), [21, 22, 23], "second slice contents in logical order");
    h.consume(&mut ch, 4);
    assert!(rx.try_bulk_read(&ch).is_none());
}

#[test]
fn read_handle_slices_no_wrap() {
    // Live range fully within the buffer end: the second slice is empty.
    let (mut ch, mut tx, mut rx) = channel::<u32>(8);
    for i in 0..5 {
        tx.try_push(&mut ch, i).unwrap();
    }
    let h = rx.try_bulk_read(&ch).unwrap();
    let (a, b) = h.as_slices(&ch);
    assert_eq!(elements(a), [0, 1, 2, 3, 4]);
    assert!(
        b.is_empty(),
        "expected empty second slice with no wrap, got {:?}",
        elements(b)
    );
}

#[test]
fn write_handle_uninit_slices_split_at_wrap() {
    // Capacity 4. Push 3, drain 3: write=3, read=3. The producer's 4 free
    // slots are [3, 7), which maps to the slots 3, 0, 1, 2.
    let (mut ch, mut tx, mut rx) = channel::<u32>(4);
    for i in 0..3 {
        tx.try_push(&mut ch, i).unwrap();
    }
    for _ in 0..3 {
        rx.try_pop(&mut ch).unwrap();
    }

    let mut h = tx.try_bulk_write(&ch).unwrap();
    assert_eq!(h.capacity(), 4);
    let (a, b) = h.as_uninit_slices_mut(&mut ch);
    assert_eq!(a.len(), 1, "expected 1-elem first slice covering slot 3");
    assert_eq!(b.len(), 3, "expected 3-elem second slice covering slots 0..3");
    a[0].write(100);
    b[0].write(200);
    b[1].write(201);
    b[2].write(202);
    h.commit(&mut ch, 4);

    // Pop in logical write order: first slice first, then second.
    assert_eq!(rx.try_pop(&mut ch), Ok(100));
    assert_eq!(rx.try_pop(&mut ch), Ok(200));
    assert_eq!(rx.try_pop(&mut ch), Ok(201));
    assert_eq!(rx.try_pop(&mut ch), Ok(202));
}

#[test]
fn write_handle_uninit_slices_no_wrap() {
    // Fresh channel: the writable region [0, capacity) does not wrap.
    let (mut ch, mut tx, _rx) = channel::<u32>(8);
    let mut h = tx.try_bulk_write(&ch).unwrap();
    assert_eq!(h.capacity(), 8);
    let (a, b) = h.as_uninit_slices_mut(&mut ch);
    assert_eq!(a.len(), 8);
    assert!(
        b.is_empty(),
        "expected empty second slice with no wrap, got len {}",
        b.len()
    );
    // No commit: the handle goes, the slots remain free.
}

#[test]
fn handle_drop_without_commit_is_noop() {
    let (mut ch, mut tx, mut rx) = channel::<u32>(4);
    tx.try_push(&mut ch, 1).unwrap();
    tx.try_push(&mut ch, 2).unwrap();
    {
        let h = rx.try_bulk_read(&ch).unwrap();
        // Drop without commit.
        drop(h);
    }
    // Elements still there.
    assert_eq!(rx.try_pop(&mut ch), Ok(1));
    assert_eq!(rx.try_pop(&mut ch), Ok(2));
}

#[test]
fn closed_consumer_send_fails() {
    let (mut ch, mut tx, rx) = channel::<u32>(4);
    rx.close(&mut ch);
    match tx.try_push(&mut ch, 1) {
        Err(TrySendError::Closed(1)) => {}
        other => panic!("expected Closed, got {other:?}"),
    }
}

#[test]
fn spsc_closed_producer_drains_then_closes() {
    let (mut ch, mut tx, mut rx) = channel::<u32>(4);
    tx.try_push(&mut ch, 10).unwrap();
    tx.try_push(&mut ch, 20).unwrap();
    tx.close(&mut ch);
    assert_eq!(rx.try_pop(&mut ch), Ok(10));
    assert_eq!(rx.try_pop(&mut ch), Ok(20));
    assert_eq!(rx.try_pop(&mut ch), Err(TryRecvError::Closed));
}

/// An element that counts how often it is dropped.
#[derive(Debug)]
struct Counted<'a>(&'a AtomicUsize, #[allow(dead_code)] u32);

impl Drop for Counted<'_> {
    fn drop(&mut self) {
        self.0.fetch_add(1, Ordering::Relaxed);
    }
}

#[test]
fn drop_counts_in_flight_and_committed() {
    let drops = AtomicUsize::new(0);
    {
        let (mut ch, mut tx, mut rx) = channel::<Counted>(8);
        for i in 0..5 {
            tx.try_push(&mut ch, Counted(&drops, i)).unwrap();
        }
        // Pop two (these drop on the caller's side).
        let _ = rx.try_pop(&mut ch).unwrap();
        let _ = rx.try_pop(&mut ch).unwrap();
        assert_eq!(drops.load(Ordering::Relaxed), 2);

        // Consume one through a handle (drops in place).
        {
            let mut h = rx.try_bulk_read(&ch).unwrap();
            assert_eq!(h.len(), 3);
            h.consume(&mut ch, 1);
        }
        assert_eq!(drops.load(Ordering::Relaxed), 3);

        // Leave 2 elements in the queue; dropping the channel drops them.
    }
    assert_eq!(drops.load(Ordering::Relaxed), 5);
}

#[test]
fn drop_in_flight_with_counter_wraparound() {
    // Push the counters past the capacity, so that the live range wraps the
    // buffer end.
    let drops = AtomicUsize::new(0);
    {
        let (mut ch, mut tx, mut rx) = channel::<Counted>(4);
        for i in 0..4 {
            tx.try_push(&mut ch, Counted(&drops, i)).unwrap();
        }
        for _ in 0..4 {
            let _ = rx.try_pop(&mut ch).unwrap();
        }
        assert_eq!(drops.load(Ordering::Relaxed), 4);

        for i in 4..10 {
            while tx.try_push(&mut ch, Counted(&drops, i)).is_err() {
                panic!("there is space for each of them");
            }
            if i < 7 {
                let _ = rx.try_pop(&mut ch).unwrap();
            }
        }
        // 6 pushed, 3 drained: 3 remain, in the slots 3, 0 and 1.
        assert_eq!(rx.len(&ch), 3);
        assert_eq!(drops.load(Ordering::Relaxed), 4 + 3);
    }
    assert_eq!(
        drops.load(Ordering::Relaxed),
        10,
        "elements missed across the wrap boundary"
    );
}

#[test]
fn drop_does_not_touch_uncommitted_bulk_write_slots() {
    let drops = AtomicUsize::new(0);
    {
        let (mut ch, mut tx, _rx) = channel::<Counted>(4);
        let mut h = tx.try_bulk_write(&ch).unwrap();
        let (a, _b) = h.as_uninit_slices_mut(&mut ch);
        // Write two slots, then drop the handle without commit: the queue
        // does not own what was written.
        a[0].write(Counted(&drops, 0));
        a[1].write(Counted(&drops, 1));
    }
    assert_eq!(drops.load(Ordering::Relaxed), 0, "uncommitted slots were touched");
}

#[test]
fn drop_either_end_first_works() {
    // Producer dropped first.
    let drops = AtomicUsize::new(0);
    {
        let (mut ch, mut tx, rx) = channel::<Counted>(4);
        tx.try_push(&mut ch, Counted(&drops, 0)).unwrap();
        tx.try_push(&mut ch, Counted(&drops, 1)).unwrap();
        tx.close(&mut ch);
        // The consumer is still there.
        assert_eq!(drops.load(Ordering::Relaxed), 0);
        rx.close(&mut ch);
    }
    assert_eq!(drops.load(Ordering::Relaxed), 2);

    // Consumer dropped first.
    let drops = AtomicUsize::new(0);
    {
        let (mut ch, mut tx, rx) = channel::<Counted>(4);
        tx.try_push(&mut ch, Counted(&drops, 0)).unwrap();
        tx.try_push(&mut ch, Counted(&drops, 1)).unwrap();
        rx.close(&mut ch);
        assert_eq!(drops.load(Ordering::Relaxed), 0);
        tx.close(&mut ch);
    }
    assert_eq!(drops.load(Ordering::Relaxed), 2);
}
