//! Single-registrar waker cell.
//!
//! Exactly one party registers (the side that parks); the other side may wake
//! at the same time. Two bits of state resolve the race: a wake that arrives
//! while a registration is in progress is delivered by the registering side.
//!
//! Every access to the cell is a function of its own, so that the accesses of
//! the two sides can be interleaved. Waking a task is left to the caller: a
//! waker that is due is handed out through the list `due`.

use std::task::Waker;
use vstd::prelude::*;

verus! {

/// `std::task::Waker`, carried through unopened.
#[verifier::external_type_specification]
#[verifier::external_body]
pub struct ExWaker(std::task::Waker);

const WAITING: usize = 0;

const REGISTERING: usize = 1;

const WAKING: usize = 2;

/// What the cell holds.
pub struct WakerState {
    /// A registration is in progress.
    pub registering: bool,
    /// A wake is in progress, or has been left to the registering side.
    pub waking: bool,
    /// The stored waker.
    pub waker: Option<Waker>,
}

pub struct AtomicWaker {
    state: usize,
    waker: Option<Waker>,
}

/// Where a registration stands: the access to the cell that it makes next.
pub enum Registration {
    /// Lock the cell for registering.
    Claim(Waker),
    /// Store the waker in the locked cell.
    Install(Waker),
    /// Unlock the cell.
    Finish,
    /// A wake came in between: take the waker back.
    Recover,
    /// Unlock the cell and clear the wake that came in between.
    Reset(Option<Waker>),
    /// Done with the cell; the waker is to be woken, if there is one.
    Deliver(Option<Waker>),
}

impl Registration {
    /// Bound on the number of steps still to be made.
    pub open spec fn rank(self) -> int {
        match self {
            Registration::Claim(_) => 6,
            Registration::Install(_) => 5,
            Registration::Finish => 4,
            Registration::Recover => 3,
            Registration::Reset(_) => 2,
            Registration::Deliver(_) => 1,
        }
    }
}

/// Where a wake stands: the access to the cell that it makes next.
pub enum Waking {
    /// Lock the cell for waking.
    Claim,
    /// Take the waker out of the locked cell.
    Take,
    /// Unlock the cell.
    Release(Option<Waker>),
    /// Done with the cell; the waker is to be woken, if there is one.
    Deliver(Option<Waker>),
}

impl Waking {
    /// Bound on the number of steps still to be made.
    pub open spec fn rank(self) -> int {
        match self {
            Waking::Claim => 4,
            Waking::Take => 3,
            Waking::Release(_) => 2,
            Waking::Deliver(_) => 1,
        }
    }
}

/// Appends the waker that is due, if there is one.
pub open spec fn delivered(due: Seq<Waker>, waker: Option<Waker>) -> Seq<Waker> {
    match waker {
        Some(w) => due.push(w),
        None => due,
    }
}

/// Appends the waker that is due, if there is one.
pub fn deliver(due: &mut Vec<Waker>, waker: Option<Waker>)
    ensures
        final(due)@ == delivered(old(due)@, waker),
{
    if let Some(w) = waker {
        due.push(w);
    }
}

impl WakerState {
    /// Nobody uses the cell, and it holds no waker.
    pub open spec fn fresh() -> WakerState {
        WakerState { registering: false, waking: false, waker: None }
    }

    /// Nobody is using the cell.
    pub open spec fn idle(self) -> bool {
        !self.registering && !self.waking
    }

    /// The cell after the access that `at` makes next.
    pub open spec fn after_registration(self, at: Registration) -> WakerState {
        match at {
            Registration::Claim(_) => if self.idle() {
                WakerState { registering: true, ..self }
            } else {
                self
            },
            Registration::Install(w) => WakerState { waker: Some(w), ..self },
            Registration::Finish => if self.registering && !self.waking {
                WakerState { registering: false, ..self }
            } else {
                self
            },
            Registration::Recover => WakerState { waker: None, ..self },
            Registration::Reset(_) => WakerState { registering: false, waking: false, ..self },
            Registration::Deliver(_) => self,
        }
    }

    /// Where a registration stands after the access that `at` makes next.
    pub open spec fn next_registration(self, at: Registration) -> Registration {
        match at {
            Registration::Claim(w) => if self.idle() {
                Registration::Install(w)
            } else if !self.registering {
                Registration::Deliver(Some(w))
            } else {
                Registration::Deliver(None)
            },
            Registration::Install(_) => Registration::Finish,
            Registration::Finish => if self.registering && !self.waking {
                Registration::Deliver(None)
            } else {
                Registration::Recover
            },
            Registration::Recover => Registration::Reset(self.waker),
            Registration::Reset(w) => Registration::Deliver(w),
            Registration::Deliver(w) => Registration::Deliver(w),
        }
    }

    /// The cell after the access that `at` makes next.
    pub open spec fn after_waking(self, at: Waking) -> WakerState {
        match at {
            Waking::Claim => WakerState { waking: true, ..self },
            Waking::Take => WakerState { waker: None, ..self },
            Waking::Release(_) => WakerState { waking: false, ..self },
            Waking::Deliver(_) => self,
        }
    }

    /// Where a wake stands after the access that `at` makes next.
    pub open spec fn next_waking(self, at: Waking) -> Waking {
        match at {
            Waking::Claim => if self.idle() {
                Waking::Take
            } else {
                Waking::Deliver(None)
            },
            Waking::Take => Waking::Release(self.waker),
            Waking::Release(w) => Waking::Deliver(w),
            Waking::Deliver(w) => Waking::Deliver(w),
        }
    }

    /// The cell after a registration of `waker` that nothing interrupts.
    pub open spec fn registered(self, waker: Waker) -> WakerState {
        if self.idle() {
            WakerState { waker: Some(waker), ..self }
        } else {
            self
        }
    }

    /// The waker that is due after a registration of `waker` that nothing
    /// interrupts: a wake in progress is passed on at once.
    pub open spec fn due_on_register(self, waker: Waker) -> Option<Waker> {
        if !self.registering && self.waking {
            Some(waker)
        } else {
            None
        }
    }

    /// The cell after a wake that nothing interrupts.
    pub open spec fn woken(self) -> WakerState {
        if self.idle() {
            WakerState { waker: None, ..self }
        } else {
            WakerState { waking: true, ..self }
        }
    }

    /// The waker that is due after a wake that nothing interrupts.
    pub open spec fn due_on_wake(self) -> Option<Waker> {
        if self.idle() {
            self.waker
        } else {
            None
        }
    }

    /// What holds at `at` of a registration of `waker` that began with the cell
    /// as `self` and that nothing has interrupted.
    pub open spec fn registration_alone(
        self,
        waker: Waker,
        at: Registration,
        now: WakerState,
    ) -> bool {
        match at {
            Registration::Claim(w) => w == waker && now == self,
            Registration::Install(w) => w == waker && self.idle() && now == (WakerState {
                registering: true,
                ..self
            }),
            Registration::Finish => self.idle() && now == (WakerState {
                registering: true,
                waking: false,
                waker: Some(waker),
            }),
            Registration::Deliver(w) => w == self.due_on_register(waker) && now
                == self.registered(waker),
            _ => false,
        }
    }

    /// What holds at `at` of a wake that began with the cell as `self` and that
    /// nothing has interrupted.
    pub open spec fn waking_alone(self, at: Waking, now: WakerState) -> bool {
        match at {
            Waking::Claim => now == self,
            Waking::Take => self.idle() && now == (WakerState { waking: true, ..self }),
            Waking::Release(w) => self.idle() && w == self.waker && now == (WakerState {
                waking: true,
                waker: None,
                ..self
            }),
            Waking::Deliver(w) => w == self.due_on_wake() && now == self.woken(),
        }
    }
}

/// A wake that comes while a registration holds the cell is not lost: it is over
/// at once, and the registering side finds it and gets its own waker back to
/// wake, with the cell free and empty.
pub proof fn law_wake_is_passed_on(cell: WakerState, waker: Waker)
    requires
        cell.registering,
        !cell.waking,
        cell.waker == Some(waker),
    ensures
        cell.next_waking(Waking::Claim) == Waking::Deliver(None),
        ({
            let woken = cell.after_waking(Waking::Claim);
            let at = woken.next_registration(Registration::Finish);
            let c = woken.after_registration(Registration::Finish);
            let at2 = c.next_registration(at);
            let c2 = c.after_registration(at);
            let at3 = c2.next_registration(at2);
            let c3 = c2.after_registration(at2);
            at3 == Registration::Deliver(Some(waker)) && c3 == WakerState::fresh()
        }),
{
}

/// What is registered in a free cell is what the next wake hands out, and
/// nothing is handed out twice.
pub proof fn law_registered_is_woken_once(cell: WakerState, waker: Waker)
    requires
        cell.idle(),
    ensures
        cell.due_on_register(waker) is None,
        cell.registered(waker).due_on_wake() == Some(waker),
        cell.registered(waker).woken().idle(),
        cell.registered(waker).woken().due_on_wake() is None,
{
}

impl View for AtomicWaker {
    type V = WakerState;

    closed spec fn view(&self) -> WakerState {
        WakerState {
            registering: self.state & REGISTERING != 0,
            waking: self.state & WAKING != 0,
            waker: self.waker,
        }
    }
}

proof fn lemma_state_bits(s: usize)
    ensures
        (s | WAKING) & REGISTERING == s & REGISTERING,
        (s | WAKING) & WAKING != 0,
        (s & !WAKING) & REGISTERING == s & REGISTERING,
        (s & !WAKING) & WAKING == 0,
        WAITING & REGISTERING == 0,
        WAITING & WAKING == 0,
        REGISTERING & REGISTERING != 0,
        REGISTERING & WAKING == 0,
        s <= 3 ==> (s | WAKING) <= 3,
        s <= 3 ==> (s & !WAKING) <= 3,
        s <= 3 ==> (s == WAITING <==> (s & REGISTERING == 0 && s & WAKING == 0)),
        s <= 3 ==> (s == REGISTERING <==> (s & REGISTERING != 0 && s & WAKING == 0)),
        s <= 3 ==> (s == WAKING <==> (s & REGISTERING == 0 && s & WAKING != 0)),
{
    assert((s | 2usize) & 1usize == s & 1usize) by (bit_vector);
    assert((s | 2usize) & 2usize != 0usize) by (bit_vector);
    assert((s & !2usize) & 1usize == s & 1usize) by (bit_vector);
    assert((s & !2usize) & 2usize == 0usize) by (bit_vector);
    assert(0usize & 1usize == 0usize && 0usize & 2usize == 0usize && 1usize & 1usize != 0usize
        && 1usize & 2usize == 0usize) by (bit_vector);
    assert(s <= 3usize ==> (s | 2usize) <= 3usize && (s & !2usize) <= 3usize) by (bit_vector);
    assert(s <= 3usize ==> (s == 0usize <==> (s & 1usize == 0usize && s & 2usize == 0usize)))
        by (bit_vector);
    assert(s <= 3usize ==> (s == 1usize <==> (s & 1usize != 0usize && s & 2usize == 0usize)))
        by (bit_vector);
    assert(s <= 3usize ==> (s == 2usize <==> (s & 1usize == 0usize && s & 2usize != 0usize)))
        by (bit_vector);
}

impl AtomicWaker {
    /// Only the two bits are in use.
    pub closed spec fn wf(self) -> bool {
        self.state <= 3
    }

    /// A cell that nobody uses and that holds no waker.
    pub fn new() -> (cell: AtomicWaker)
        ensures
            cell.wf(),
            cell@ == WakerState::fresh(),
    {
        proof {
            lemma_state_bits(WAITING);
        }
        AtomicWaker { state: WAITING, waker: None }
    }

    /// Makes the next access of a registration.
    pub fn register_step(&mut self, at: Registration) -> (next: Registration)
        requires
            old(self).wf(),
        ensures
            final(self).wf(),
            final(self)@ == old(self)@.after_registration(at),
            next == old(self)@.next_registration(at),
    {
        proof {
            lemma_state_bits(self.state);
        }
        match at {
            Registration::Claim(w) => {
                if self.state == WAITING {
                    self.state = REGISTERING;
                    Registration::Install(w)
                } else if self.state == WAKING {
                    Registration::Deliver(Some(w))
                } else {
                    Registration::Deliver(None)
                }
            },
            Registration::Install(w) => {
                self.waker = Some(w);
                Registration::Finish
            },
            Registration::Finish => {
                if self.state == REGISTERING {
                    self.state = WAITING;
                    Registration::Deliver(None)
                } else {
                    Registration::Recover
                }
            },
            Registration::Recover => Registration::Reset(self.waker.take()),
            Registration::Reset(w) => {
                self.state = WAITING;
                Registration::Deliver(w)
            },
            Registration::Deliver(w) => Registration::Deliver(w),
        }
    }

    /// Makes the next access of a wake.
    pub fn wake_step(&mut self, at: Waking) -> (next: Waking)
        requires
            old(self).wf(),
        ensures
            final(self).wf(),
            final(self)@ == old(self)@.after_waking(at),
            next == old(self)@.next_waking(at),
    {
        proof {
            lemma_state_bits(self.state);
        }
        match at {
            Waking::Claim => {
                let before: usize = self.state;
                self.state = before | WAKING;
                if before == WAITING {
                    Waking::Take
                } else {
                    Waking::Deliver(None)
                }
            },
            Waking::Take => Waking::Release(self.waker.take()),
            Waking::Release(w) => {
                self.state = self.state & !WAKING;
                Waking::Deliver(w)
            },
            Waking::Deliver(w) => Waking::Deliver(w),
        }
    }

    /// Stores `waker` in place of the one stored before. If a wake is in
    /// progress, `waker` is due at once.
    pub fn register(&mut self, waker: Waker, due: &mut Vec<Waker>)
        requires
            old(self).wf(),
        ensures
            final(self).wf(),
            final(self)@ == old(self)@.registered(waker),
            final(due)@ == delivered(old(due)@, old(self)@.due_on_register(waker)),
    {
        let at = self.register_step(Registration::Claim(waker));
        let at = self.register_step(at);
        let at = self.register_step(at);
        let at = self.register_step(at);
        let at = self.register_step(at);
        if let Registration::Deliver(w) = at {
            deliver(due, w);
        }
    }

    /// Takes the stored waker and makes it due.
    pub fn wake(&mut self, due: &mut Vec<Waker>)
        requires
            old(self).wf(),
        ensures
            final(self).wf(),
            final(self)@ == old(self)@.woken(),
            final(due)@ == delivered(old(due)@, old(self)@.due_on_wake()),
    {
        let w = self.take();
        deliver(due, w);
    }

    fn take(&mut self) -> (waker: Option<Waker>)
        requires
            old(self).wf(),
        ensures
            final(self).wf(),
            final(self)@ == old(self)@.woken(),
            waker == old(self)@.due_on_wake(),
    {
        let at = self.wake_step(Waking::Claim);
        let at = self.wake_step(at);
        let at = self.wake_step(at);
        match at {
            Waking::Deliver(w) => w,
            _ => None,
        }
    }
}

} // verus!
