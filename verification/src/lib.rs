//! Fixed-capacity single-producer single-consumer ring buffer with bulk read
//! and write handles.
//!
//! The two halves of a channel work on one shared [`inner::Inner`], which is
//! handed to each operation. Every access that a half makes to the shared
//! state is a function of its own, and the longer operations can be run one
//! access at a time, so that accesses of the two halves may be interleaved.

use crate::counter::round_up;
use crate::inner::Inner;
use vstd::prelude::*;

pub mod atomic_waker;
pub mod consumer;
pub mod counter;
pub mod effects;
pub mod handshake;
pub mod inner;
pub mod laws;
pub mod parking;
pub mod producer;
pub mod read_steps;
pub mod runs;
pub mod slot;
pub mod state;
pub mod waiting;
pub mod write_steps;

pub use consumer::{Consumer, ReadHandle, TryRecvError};
pub use producer::{Producer, TrySendError, WriteHandle};

verus! {

/// The other half of the channel has been dropped and the operation cannot make
/// progress.
#[derive(Debug, Clone, Copy, PartialEq, Eq, Structural)]
pub struct Closed;

impl Closed {
    pub fn message(&self) -> (message: &'static str)
        ensures
            message@ == "channel peer dropped"@,
    {
        "channel peer dropped"
    }
}

/// A bounded channel and its two halves.
///
/// `capacity` is rounded up to the next power of two; the actual capacity is
/// given by [`Producer::capacity`] and [`Consumer::capacity`].
pub fn channel<T>(capacity: usize) -> (res: (Inner<T>, Producer<T>, Consumer<T>))
    requires
        0 < capacity <= crate::counter::max_capacity(),
    ensures
        res.0.wf(),
        res.1.attached(res.0@),
        res.2.attached(res.0@),
        crate::counter::is_rounded_up(capacity as int, res.0@.capacity),
        res.0@ == crate::state::State::<T>::fresh(res.0@.capacity),
{
    let inner = Inner::with_capacity(round_up(capacity));
    (inner, Producer::new(), Consumer::new())
}

} // verus!
