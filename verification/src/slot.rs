//! A single cell of the ring buffer.

use core::mem::ManuallyDrop;
use vstd::prelude::*;

verus! {

/// One cell of the ring buffer.
///
/// Only a `Live` cell holds an element of the queue. A `Staged` value has been
/// written through a write handle and not been committed: the queue does not
/// own it, so it is never dropped from here, only overwritten or committed.
pub enum Slot<T> {
    /// Holds nothing.
    Vacant,
    /// Written by the producer, not yet committed.
    Staged(ManuallyDrop<T>),
    /// Holds an element of the queue.
    Live(T),
}

impl<T> Slot<T> {
    /// The uncommitted value in this cell.
    pub open spec fn staged(self) -> Option<T> {
        match self {
            Slot::Staged(m) => Some(m@),
            _ => None,
        }
    }

    /// The queued element in this cell.
    pub open spec fn live(self) -> Option<T> {
        match self {
            Slot::Live(value) => Some(value),
            _ => None,
        }
    }

    /// Stages `value` in this cell. What the cell held is forgotten without
    /// being dropped, unless it was a queued element.
    pub fn write(&mut self, value: T)
        ensures
            final(self).staged() == Some(value),
            final(self).live() == None::<T>,
    {
        *self = Slot::Staged(ManuallyDrop::new(value));
    }

    /// The queued element in this cell, if there is one.
    pub fn get(&self) -> (value: Option<&T>)
        ensures
            match value {
                Some(v) => self.live() == Some(*v),
                None => self.live() is None,
            },
    {
        match self {
            Slot::Live(value) => Some(value),
            _ => None,
        }
    }

    /// Whether this cell holds an uncommitted value.
    pub fn has_staged(&self) -> (staged: bool)
        ensures
            staged == self.staged() is Some,
    {
        match self {
            Slot::Staged(_) => true,
            _ => false,
        }
    }

    /// Turns a staged value into a queued element.
    pub(crate) fn commit(&mut self)
        ensures
            match old(self).staged() {
                Some(value) => *final(self) == Slot::Live(value),
                None => *final(self) == *old(self),
            },
    {
        let mut slot = Slot::Vacant;
        core::mem::swap(self, &mut slot);
        *self = match slot {
            Slot::Staged(m) => Slot::Live(ManuallyDrop::into_inner(m)),
            other => other,
        };
    }

    /// Empties the cell and hands out the queued element it held.
    pub(crate) fn take(&mut self) -> (value: Option<T>)
        ensures
            value == old(self).live(),
            *final(self) == Slot::<T>::Vacant,
        opens_invariants none
        no_unwind
    {
        let mut slot = Slot::Vacant;
        core::mem::swap(self, &mut slot);
        match slot {
            Slot::Live(value) => Some(value),
            _ => None,
        }
    }
}

} // verus!
