//! Where one side of the channel waits for the other.
//!
//! The waiting side stores its waker and raises a flag, then looks once more
//! whether it still has to wait. The other side publishes its progress, then
//! looks at the flag and wakes only if it is raised.

use crate::atomic_waker::AtomicWaker;
use crate::atomic_waker::Registration;
use crate::atomic_waker::WakerState;
use crate::atomic_waker::Waking;
use std::task::Waker;
use vstd::prelude::*;

verus! {

/// Outcome of looking whether a side can go on.
#[derive(Debug, Clone, Copy, PartialEq, Eq, Structural)]
pub enum Readiness {
    /// There is something to do.
    Ready,
    /// The other side is gone and nothing is left to do.
    Closed,
    /// Wait for the other side.
    Pending,
}

/// What the waiting place of one side holds.
pub struct ParkingState {
    /// The side has asked to be woken.
    pub wake_pending: bool,
    pub cell: WakerState,
}

pub struct Parking {
    wake_pending: bool,
    waker: AtomicWaker,
}

/// Where the signalling side stands: the access that it makes next.
pub enum Signal {
    /// Look at the flag.
    Check,
    /// Lower the flag.
    Clear,
    /// Wake; when that has come to its `Deliver`, the signal is done.
    Wake(Waking),
}

/// Where a side that leaves the channel stands: the access that it makes next.
pub enum Leave {
    /// Record that the side is gone.
    Clear,
    /// Wake the other side.
    Wake(Waking),
    Done,
}

impl Signal {
    /// Bound on the number of steps still to be made.
    pub open spec fn rank(self) -> int {
        match self {
            Signal::Check => 6,
            Signal::Clear => 5,
            Signal::Wake(w) => w.rank(),
        }
    }
}

impl Leave {
    /// Bound on the number of steps still to be made.
    pub open spec fn rank(self) -> int {
        match self {
            Leave::Clear => 5,
            Leave::Wake(w) => w.rank(),
            Leave::Done => 0,
        }
    }
}

impl ParkingState {
    /// Nobody waits.
    pub open spec fn fresh() -> ParkingState {
        ParkingState { wake_pending: false, cell: WakerState::fresh() }
    }

    /// The parking place after the access that `at` makes next.
    pub open spec fn after_signal(self, at: Signal) -> ParkingState {
        match at {
            Signal::Check => self,
            Signal::Clear => ParkingState { wake_pending: false, ..self },
            Signal::Wake(w) => ParkingState { cell: self.cell.after_waking(w), ..self },
        }
    }

    /// Where the signalling side stands after the access that `at` makes next.
    pub open spec fn next_signal(self, at: Signal) -> Signal {
        match at {
            Signal::Check => if self.wake_pending {
                Signal::Clear
            } else {
                Signal::Wake(Waking::Deliver(None))
            },
            Signal::Clear => Signal::Wake(Waking::Claim),
            Signal::Wake(w) => Signal::Wake(self.cell.next_waking(w)),
        }
    }

    /// The parking place after a signal that nothing interrupts.
    pub open spec fn signalled(self) -> ParkingState {
        if self.wake_pending {
            ParkingState { wake_pending: false, cell: self.cell.woken() }
        } else {
            self
        }
    }

    /// The waker that is due after a signal that nothing interrupts.
    pub open spec fn due_on_signal(self) -> Option<Waker> {
        if self.wake_pending {
            self.cell.due_on_wake()
        } else {
            None
        }
    }

    /// The parking place after a wake that does not look at the flag.
    pub open spec fn woken(self) -> ParkingState {
        ParkingState { cell: self.cell.woken(), ..self }
    }

    /// What holds at `at` of a signal that began with the parking place as
    /// `self` and that nothing has interrupted.
    pub open spec fn signal_alone(self, at: Signal, now: ParkingState) -> bool {
        match at {
            Signal::Check => now == self,
            Signal::Clear => self.wake_pending && now == self,
            Signal::Wake(w) => if self.wake_pending {
                !now.wake_pending && self.cell.waking_alone(w, now.cell)
            } else {
                w == Waking::Deliver(None) && now == self
            },
        }
    }
}

impl View for Parking {
    type V = ParkingState;

    closed spec fn view(&self) -> ParkingState {
        ParkingState { wake_pending: self.wake_pending, cell: self.waker@ }
    }
}

impl Parking {
    pub closed spec fn wf(self) -> bool {
        self.waker.wf()
    }

    /// Nobody waits.
    pub fn new() -> (parking: Parking)
        ensures
            parking.wf(),
            parking@ == ParkingState::fresh(),
    {
        Parking { wake_pending: false, waker: AtomicWaker::new() }
    }

    /// Makes the next access of the signalling side.
    pub fn signal_step(&mut self, at: Signal) -> (next: Signal)
        requires
            old(self).wf(),
        ensures
            final(self).wf(),
            final(self)@ == old(self)@.after_signal(at),
            next == old(self)@.next_signal(at),
    {
        match at {
            Signal::Check => if self.wake_pending {
                Signal::Clear
            } else {
                Signal::Wake(Waking::Deliver(None))
            },
            Signal::Clear => {
                self.wake_pending = false;
                Signal::Wake(Waking::Claim)
            },
            Signal::Wake(w) => Signal::Wake(self.waker.wake_step(w)),
        }
    }

    /// Makes the next access of a registration.
    pub fn register_step(&mut self, at: Registration) -> (next: Registration)
        requires
            old(self).wf(),
        ensures
            final(self).wf(),
            final(self)@ == (ParkingState {
                cell: old(self)@.cell.after_registration(at),
                ..old(self)@
            }),
            next == old(self)@.cell.next_registration(at),
    {
        self.waker.register_step(at)
    }

    /// Makes the next access of a wake that does not look at the flag.
    pub fn wake_step(&mut self, at: Waking) -> (next: Waking)
        requires
            old(self).wf(),
        ensures
            final(self).wf(),
            final(self)@ == (ParkingState {
                cell: old(self)@.cell.after_waking(at),
                ..old(self)@
            }),
            next == old(self)@.cell.next_waking(at),
    {
        self.waker.wake_step(at)
    }

    /// Raises or lowers the flag.
    pub fn set_wake_pending(&mut self, raised: bool)
        requires
            old(self).wf(),
        ensures
            final(self).wf(),
            final(self)@ == (ParkingState { wake_pending: raised, ..old(self)@ }),
    {
        self.wake_pending = raised;
    }
}

} // verus!
