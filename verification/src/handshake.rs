//! How one side waits for the other without missing its signal.
//!
//! The waiting side stores its waker, raises the flag and then looks once more
//! at what it waits for. The signalling side makes its progress visible and
//! then looks at the flag. Whichever way these accesses interleave, one of the
//! two sees the other.

use crate::atomic_waker::Registration;
use crate::atomic_waker::Waking;
use crate::parking::ParkingState;
use crate::parking::Signal;
use std::task::Waker;
use vstd::prelude::*;

verus! {

/// Where the waiting side stands.
pub enum Wait {
    /// Not waiting.
    Away,
    /// Storing its waker.
    Park(Registration),
    /// About to raise the flag.
    Raise,
    /// The flag is raised. What the side waits for has been looked at again and
    /// found missing (`data`), and the other side has been looked at again and
    /// found present (`peer`). With both, the side has gone to sleep.
    Look { data: bool, peer: bool },
    /// About to lower the flag.
    Lower,
}

/// One side that waits and one that signals.
pub struct Handshake {
    pub parking: ParkingState,
    pub wait: Wait,
    /// The waker that the waiting side stores or has stored.
    pub waker: Waker,
    /// Where the signalling side stands, if it is signalling.
    pub signal: Option<Signal>,
    /// What the waiting side waits for has come about.
    pub ready: bool,
    /// The signalling side is gone.
    pub gone: bool,
    /// `waker` has been handed out since the waiting side began to store it.
    pub woken: bool,
}

impl Handshake {
    /// The waiting side has locked the cell.
    pub open spec fn holds_cell(self) -> bool {
        match self.wait {
            Wait::Park(Registration::Install(_)) => true,
            Wait::Park(Registration::Finish) => true,
            Wait::Park(Registration::Recover) => true,
            Wait::Park(Registration::Reset(_)) => true,
            _ => false,
        }
    }

    /// The signalling side has locked the cell.
    pub open spec fn wakes(self) -> bool {
        match self.signal {
            Some(Signal::Wake(Waking::Take)) => true,
            Some(Signal::Wake(Waking::Release(_))) => true,
            _ => false,
        }
    }

    /// The waker is in the cell, or on its way, or has been handed out.
    pub open spec fn reachable(self) -> bool {
        ||| self.woken
        ||| self.parking.cell.waker == Some(self.waker)
        ||| self.signal == Some(Signal::Wake(Waking::Release(Some(self.waker))))
        ||| self.signal == Some(Signal::Wake(Waking::Deliver(Some(self.waker))))
    }

    /// The signalling side is going to hand out the waker.
    pub open spec fn ringing(self) -> bool {
        match self.signal {
            Some(Signal::Clear) => true,
            Some(Signal::Wake(Waking::Claim)) => true,
            Some(Signal::Wake(Waking::Take)) => true,
            Some(Signal::Wake(Waking::Release(w))) => w == Some(self.waker),
            Some(Signal::Wake(Waking::Deliver(w))) => w == Some(self.waker),
            _ => false,
        }
    }

    /// What holds of the two sides at any time.
    pub open spec fn inv(self) -> bool {
        let cell = self.parking.cell;
        &&& cell.registering == self.holds_cell()
        &&& cell.registering ==> !self.wakes()
        &&& !cell.registering ==> cell.waking == self.wakes()
        &&& match self.wait {
            Wait::Away => true,
            Wait::Park(r) => match r {
                Registration::Claim(w) => w == self.waker,
                Registration::Install(w) => w == self.waker,
                Registration::Finish => cell.waker == Some(self.waker),
                Registration::Recover => cell.waker == Some(self.waker),
                Registration::Reset(w) => w == Some(self.waker),
                Registration::Deliver(w) => w == Some(self.waker) || (w is None
                    && self.reachable()),
            },
            Wait::Raise => self.reachable(),
            Wait::Look { data, peer } => {
                &&& self.reachable()
                &&& self.woken || self.parking.wake_pending || self.ringing()
                &&& data && self.ready ==> self.woken || self.ringing() || self.signal == Some(
                    Signal::Check,
                )
                &&& peer && self.gone ==> self.woken || self.ringing()
            },
            Wait::Lower => true,
        }
    }

    /// The waiting side has gone to sleep.
    pub open spec fn asleep(self) -> bool {
        self.wait == (Wait::Look { data: true, peer: true })
    }

    /// The next access of the signalling side.
    pub open spec fn signal_moves(self) -> Handshake
        recommends
            self.signal is Some,
    {
        match self.signal {
            Some(Signal::Wake(Waking::Deliver(w))) => Handshake {
                signal: None,
                woken: self.woken || w == Some(self.waker),
                ..self
            },
            Some(at) => Handshake {
                parking: self.parking.after_signal(at),
                signal: Some(self.parking.next_signal(at)),
                ..self
            },
            None => self,
        }
    }

    /// The signalling side has made progress and is about to look at the flag.
    pub open spec fn publishes(self, ready: bool) -> Handshake {
        Handshake { ready: self.ready || ready, signal: Some(Signal::Check), ..self }
    }

    /// The signalling side is gone and about to wake the other.
    pub open spec fn departs(self) -> Handshake {
        Handshake { gone: true, signal: Some(Signal::Wake(Waking::Claim)), ..self }
    }

    /// The waiting side begins to store `waker`.
    pub open spec fn parks(self, waker: Waker) -> Handshake {
        Handshake { wait: Wait::Park(Registration::Claim(waker)), waker, woken: false, ..self }
    }

    /// The next access of a waiting side that stores its waker.
    pub open spec fn registers(self) -> Handshake {
        match self.wait {
            Wait::Park(Registration::Deliver(w)) => Handshake {
                wait: Wait::Raise,
                woken: self.woken || w == Some(self.waker),
                ..self
            },
            Wait::Park(r) => Handshake {
                parking: ParkingState {
                    cell: self.parking.cell.after_registration(r),
                    ..self.parking
                },
                wait: Wait::Park(self.parking.cell.next_registration(r)),
                ..self
            },
            _ => self,
        }
    }

    /// The waiting side raises the flag.
    pub open spec fn raises(self) -> Handshake {
        Handshake {
            parking: ParkingState { wake_pending: true, ..self.parking },
            wait: Wait::Look { data: false, peer: false },
            ..self
        }
    }
}

/// Signalling keeps the invariant.
pub proof fn law_signal_keeps(h: Handshake)
    requires
        h.inv(),
        h.signal is Some,
    ensures
        h.signal_moves().inv(),
{
}

/// Progress of the signalling side keeps the invariant.
pub proof fn law_publish_keeps(h: Handshake, ready: bool)
    requires
        h.inv(),
        h.signal is None,
    ensures
        h.publishes(ready).inv(),
{
}

/// The departure of the signalling side keeps the invariant.
pub proof fn law_depart_keeps(h: Handshake)
    requires
        h.inv(),
        h.signal is None,
    ensures
        h.departs().inv(),
{
}

/// Beginning to wait keeps the invariant.
pub proof fn law_park_keeps(h: Handshake, waker: Waker)
    requires
        h.inv(),
        h.wait is Away,
    ensures
        h.parks(waker).inv(),
{
}

/// Storing the waker keeps the invariant.
pub proof fn law_register_keeps(h: Handshake)
    requires
        h.inv(),
        h.wait is Park,
    ensures
        h.registers().inv(),
{
}

/// Raising the flag keeps the invariant.
pub proof fn law_raise_keeps(h: Handshake)
    requires
        h.inv(),
        h.wait is Raise,
    ensures
        h.raises().inv(),
{
}

/// Whoever sleeps while what it waits for is there, or while the other side is
/// gone, has been woken or is about to be.
pub proof fn law_no_lost_wake(h: Handshake)
    requires
        h.inv(),
        h.asleep(),
        h.ready || h.gone,
        h.signal is None,
    ensures
        h.woken,
{
}

} // verus!
