//! Edge cases of the single operations.

use spsc::consumer::TryRecvError;
use spsc::counter::round_up;
use spsc::producer::TrySendError;
use spsc::slot::Slot;
use spsc::{channel, Closed};
use std::sync::Mutex;

#[test]
fn capacities_round_up_to_powers_of_two() {
    let table = [(1, 1), (2, 2), (3, 4), (4, 4), (5, 8), (63, 64), (64, 64), (65, 128)];
    for (requested, rounded) in table {
        assert_eq!(round_up(requested), rounded);
    }
    let top = usize::MAX / 2 + 1;
    assert_eq!(round_up(top), top);
    assert_eq!(round_up(top - 1), top);
    assert_eq!(round_up(top / 2 + 1), top);
}

#[test]
fn a_single_slot_is_used_over_and_over() {
    let (mut ch, mut tx, mut rx) = channel::<u32>(1);
    assert_eq!(tx.capacity(&ch), 1);
    for i in 0..100 {
        assert_eq!(tx.try_push(&mut ch, i), Ok(()));
        assert_eq!(tx.try_push(&mut ch, i), Err(TrySendError::Full(i)));
        assert_eq!(rx.try_pop(&mut ch), Ok(i));
        assert_eq!(rx.try_pop(&mut ch), Err(TryRecvError::Empty));
    }
}

#[test]
fn free_and_available_add_up_to_the_capacity() {
    let (mut ch, mut tx, mut rx) = channel::<u32>(4);
    assert_eq!((tx.free(&ch), rx.len(&ch)), (4, 0));
    assert!(rx.is_empty(&ch));
    tx.try_push(&mut ch, 1).unwrap();
    tx.try_push(&mut ch, 2).unwrap();
    tx.try_push(&mut ch, 3).unwrap();
    assert_eq!((tx.free(&ch), rx.len(&ch)), (1, 3));
    assert!(!rx.is_empty(&ch));
    rx.try_pop(&mut ch).unwrap();
    assert_eq!((tx.free(&ch), rx.len(&ch)), (2, 2));
}

#[test]
fn closed_is_told_whether_there_is_space_or_not() {
    let (mut ch, mut tx, rx) = channel::<u32>(1);
    tx.try_push(&mut ch, 1).unwrap();
    assert!(tx.is_consumer_alive(&ch));
    rx.close(&mut ch);
    assert!(!tx.is_consumer_alive(&ch));
    assert_eq!(tx.try_push(&mut ch, 2), Err(TrySendError::Closed(2)));

    let (mut ch, mut tx, rx) = channel::<u32>(8);
    rx.close(&mut ch);
    assert_eq!(tx.try_push(&mut ch, 3), Err(TrySendError::Closed(3)));
    assert_eq!(tx.free(&ch), 8);
}

#[test]
fn no_write_handle_on_a_full_buffer_or_without_a_consumer() {
    let (mut ch, mut tx, mut rx) = channel::<u32>(2);
    tx.try_push(&mut ch, 1).unwrap();
    tx.try_push(&mut ch, 2).unwrap();
    assert!(tx.try_bulk_write(&ch).is_none());
    assert!(tx.is_consumer_alive(&ch));
    rx.try_pop(&mut ch).unwrap();
    assert_eq!(tx.try_bulk_write(&ch).unwrap().capacity(), 1);
    rx.close(&mut ch);
    assert!(tx.try_bulk_write(&ch).is_none());
    assert!(!tx.is_consumer_alive(&ch));
}

#[test]
fn no_read_handle_on_an_empty_buffer() {
    let (mut ch, mut tx, mut rx) = channel::<u32>(2);
    assert!(rx.try_bulk_read(&ch).is_none());
    assert!(rx.is_producer_alive(&ch));
    tx.try_push(&mut ch, 1).unwrap();
    tx.close(&mut ch);
    assert!(!rx.is_producer_alive(&ch));
    assert_eq!(rx.try_bulk_read(&ch).unwrap().len(), 1);
}

#[test]
fn part_of_a_write_handle_can_be_committed() {
    let (mut ch, mut tx, mut rx) = channel::<u32>(4);
    let mut h = tx.try_bulk_write(&ch).unwrap();
    assert!(h.is_staged(&ch, 0));
    assert!(!h.is_staged(&ch, 1));
    let (a, _) = h.as_uninit_slices_mut(&mut ch);
    a[0].write(1);
    a[1].write(2);
    a[2].write(3);
    assert!(h.is_staged(&ch, 3));
    assert!(!h.is_staged(&ch, 4));
    h.commit(&mut ch, 2);
    assert_eq!(rx.len(&ch), 2);
    assert_eq!(tx.free(&ch), 2);
    // What was staged and not committed is overwritten by the next push.
    tx.try_push(&mut ch, 4).unwrap();
    assert_eq!(rx.try_pop(&mut ch), Ok(1));
    assert_eq!(rx.try_pop(&mut ch), Ok(2));
    assert_eq!(rx.try_pop(&mut ch), Ok(4));
    assert_eq!(rx.try_pop(&mut ch), Err(TryRecvError::Empty));
}

#[test]
fn committing_nothing_changes_nothing() {
    let (mut ch, mut tx, mut rx) = channel::<u32>(4);
    tx.try_push(&mut ch, 1).unwrap();
    tx.try_bulk_write(&ch).unwrap().commit(&mut ch, 0);
    let mut h = rx.try_bulk_read(&ch).unwrap();
    h.commit(&mut ch, 0);
    assert_eq!(h.len(), 1);
    assert_eq!(rx.len(&ch), 1);
    assert_eq!(tx.free(&ch), 3);
}

#[test]
fn read_handle_moves_on_as_it_is_committed() {
    let (mut ch, mut tx, mut rx) = channel::<u32>(4);
    for i in 0..4 {
        tx.try_push(&mut ch, i).unwrap();
    }
    let mut h = rx.try_bulk_read(&ch).unwrap();
    h.commit(&mut ch, 1);
    h.commit(&mut ch, 2);
    assert_eq!(h.len(), 1);
    assert!(!h.is_empty());
    let (a, b) = h.as_slices(&ch);
    assert_eq!(a[0].get(), Some(&3));
    assert!(b.is_empty());
    // The producer goes on while the handle is there, which does not see it.
    tx.try_push(&mut ch, 4).unwrap();
    assert_eq!(h.len(), 1);
    h.commit(&mut ch, 1);
    assert!(h.is_empty());
    assert_eq!(rx.try_pop(&mut ch), Ok(4));
}

#[test]
fn consumer_goes_on_while_a_write_handle_is_there() {
    let (mut ch, mut tx, mut rx) = channel::<u32>(4);
    for i in 0..3 {
        tx.try_push(&mut ch, i).unwrap();
    }
    let mut h = tx.try_bulk_write(&ch).unwrap();
    assert_eq!(h.capacity(), 1);
    let (a, _) = h.as_uninit_slices_mut(&mut ch);
    a[0].write(3);
    assert_eq!(rx.try_pop(&mut ch), Ok(0));
    assert_eq!(h.capacity(), 1);
    h.commit(&mut ch, 1);
    assert_eq!(rx.try_pop(&mut ch), Ok(1));
    assert_eq!(rx.try_pop(&mut ch), Ok(2));
    assert_eq!(rx.try_pop(&mut ch), Ok(3));
}

#[test]
fn bulk_writes_and_pushes_queue_alike() {
    let (mut ch, mut tx, mut rx) = channel::<u32>(8);
    tx.try_push(&mut ch, 0).unwrap();
    let mut h = tx.try_bulk_write(&ch).unwrap();
    let (a, _) = h.as_uninit_slices_mut(&mut ch);
    for i in 0..3 {
        a[i].write(1 + i as u32);
    }
    h.commit(&mut ch, 3);
    tx.try_push(&mut ch, 4).unwrap();
    for i in 0..5 {
        assert_eq!(rx.try_pop(&mut ch), Ok(i));
    }
}

/// An element that writes its number down when it is dropped.
struct Noted<'a>(&'a Mutex<Vec<u32>>, u32);

impl Drop for Noted<'_> {
    fn drop(&mut self) {
        self.0.lock().unwrap().push(self.1);
    }
}

#[test]
fn dropped_channel_drops_its_elements_oldest_first() {
    let dropped = Mutex::new(Vec::new());
    let (mut ch, mut tx, mut rx) = channel::<Noted>(4);
    for i in 0..4 {
        assert!(tx.try_push(&mut ch, Noted(&dropped, i)).is_ok());
    }
    for _ in 0..3 {
        assert!(rx.try_pop(&mut ch).is_ok());
    }
    for i in 4..6 {
        assert!(tx.try_push(&mut ch, Noted(&dropped, i)).is_ok());
    }
    // The elements 3, 4 and 5 are in the slots 3, 0 and 1. A value that has
    // been written and not committed is nobody's to drop.
    let mut handle = tx.try_bulk_write(&ch).unwrap();
    handle.as_uninit_slices_mut(&mut ch).0[0].write(Noted(&dropped, 6));
    drop(ch);
    assert_eq!(*dropped.lock().unwrap(), [0, 1, 2, 3, 4, 5]);
}

#[test]
fn commits_in_parts_leave_what_one_commit_leaves() {
    let left = |parts: &[usize]| {
        let (mut ch, mut tx, mut rx) = channel::<u32>(4);
        for i in 0..4 {
            tx.try_push(&mut ch, i).unwrap();
        }
        let mut handle = rx.try_bulk_read(&ch).unwrap();
        for &n in parts {
            handle.commit(&mut ch, n);
        }
        assert_eq!(handle.len(), 1);
        let (a, b) = handle.as_slices(&ch);
        assert_eq!((a.len(), b.len()), (1, 0));
        (tx.free(&ch), rx.len(&ch), rx.try_pop(&mut ch))
    };
    assert_eq!(left(&[3]), (3, 1, Ok(3)));
    assert_eq!(left(&[1, 2]), (3, 1, Ok(3)));
    assert_eq!(left(&[0, 2, 0, 1]), (3, 1, Ok(3)));
}

#[test]
fn a_commit_can_be_run_by_hand() {
    let (mut ch, mut tx, mut rx) = channel::<u32>(2);
    tx.try_push(&mut ch, 1).unwrap();
    tx.try_push(&mut ch, 2).unwrap();
    let mut handle = rx.try_bulk_read(&ch).unwrap();
    assert_eq!(handle.take_next(&mut ch), 1);
    assert_eq!(handle.len(), 1);
    // The slot is empty, but the producer does not have it back yet.
    assert_eq!(tx.free(&ch), 0);
    handle.hand_back(&mut ch);
    assert_eq!(tx.free(&ch), 1);
    assert_eq!(handle.take_next(&mut ch), 2);
    assert!(handle.is_empty());
    handle.hand_back(&mut ch);
    assert_eq!(tx.free(&ch), 2);
}

#[test]
fn cached_counts_lag_behind_until_they_are_refreshed() {
    let (mut ch, mut tx, mut rx) = channel::<u32>(4);
    for i in 0..3 {
        tx.try_push(&mut ch, i).unwrap();
    }
    assert_eq!(tx.cached_free(&ch), 1);
    assert_eq!(rx.cached_len(), 0);
    rx.refresh_cached_write(&ch);
    assert_eq!(rx.cached_len(), 3);
    assert_eq!(rx.try_pop(&mut ch), Ok(0));
    assert_eq!(rx.cached_len(), 2);
    assert_eq!(tx.cached_free(&ch), 1);
    tx.refresh_cached_read(&ch);
    assert_eq!(tx.cached_free(&ch), 2);
    assert_eq!(tx.free(&ch), 2);
}

#[test]
fn read_handle_shows_the_same_while_the_producer_pushes() {
    let (mut ch, mut tx, mut rx) = channel::<u32>(4);
    tx.try_push(&mut ch, 1).unwrap();
    tx.try_push(&mut ch, 2).unwrap();
    let handle = rx.try_bulk_read(&ch).unwrap();
    for i in 3..5 {
        let (a, b) = handle.as_slices(&ch);
        let seen: Vec<u32> = a.iter().chain(b).map(|slot| *slot.get().unwrap()).collect();
        assert_eq!(seen, [1, 2]);
        tx.try_push(&mut ch, i).unwrap();
    }
    assert_eq!(handle.len(), 2);
    assert_eq!(rx.len(&ch), 4);
}

#[test]
fn committed_elements_are_dropped_in_order() {
    let dropped = Mutex::new(Vec::new());
    let (mut ch, mut tx, mut rx) = channel::<Noted>(4);
    for i in 0..4 {
        assert!(tx.try_push(&mut ch, Noted(&dropped, i)).is_ok());
    }
    rx.try_bulk_read(&ch).unwrap().commit(&mut ch, 3);
    assert_eq!(*dropped.lock().unwrap(), [0, 1, 2]);
}

#[test]
fn rejected_values_are_handed_back_undropped() {
    let dropped = Mutex::new(Vec::new());
    let (mut ch, mut tx, _rx) = channel::<Noted>(1);
    assert!(tx.try_push(&mut ch, Noted(&dropped, 0)).is_ok());
    match tx.try_push(&mut ch, Noted(&dropped, 1)) {
        Err(TrySendError::Full(value)) => {
            assert_eq!(value.1, 1);
            assert!(dropped.lock().unwrap().is_empty());
        }
        _ => panic!("expected Full"),
    }
    assert_eq!(*dropped.lock().unwrap(), [1]);
}

#[test]
fn slots_show_only_queued_elements() {
    let mut slot = Slot::Vacant;
    assert_eq!(slot.get(), None);
    assert!(!slot.has_staged());
    slot.write(5);
    assert_eq!(slot.get(), None);
    assert!(slot.has_staged());
    let slot = Slot::Live(6);
    assert_eq!(slot.get(), Some(&6));
    assert!(!slot.has_staged());
}

#[test]
fn errors_say_what_happened() {
    assert_eq!(TrySendError::Full(1).message(), "channel full");
    assert_eq!(TrySendError::Closed(1).message(), "channel closed");
    assert_eq!(TryRecvError::Empty.message(), "channel empty");
    assert_eq!(TryRecvError::Closed.message(), "channel closed");
    assert_eq!(Closed.message(), "channel peer dropped");
}
