//! The one-shot result slot of the task bridge.
//!
//! Enqueuing a unit of work creates one slot; when the serializer runs the
//! work, its outcome is written to the slot exactly once, and the waiter
//! holding the handle takes it exactly once, from any context, without ever
//! suspending the serializer. A handle whose waiter is dropped lets the work
//! run to completion with a discarded result: the slot accepts the outcome
//! whether or not anyone will take it.

use vstd::prelude::*;

verus! {

/// A one-shot slot pairing a deferred unit of work with its waiter.
pub struct TaskSlot<T> {
    value: Option<T>,
}

impl<T> View for TaskSlot<T> {
    type V = Option<T>;

    closed spec fn view(&self) -> Option<T> {
        self.value
    }
}

impl<T> TaskSlot<T> {
    /// A fresh, unfilled slot.
    pub fn new() -> (s: TaskSlot<T>)
        ensures
            s@ is None,
    {
        TaskSlot { value: None }
    }

    /// Delivers the work's outcome. Exactly the first delivery is kept: a
    /// filled slot rejects every further value unchanged, so one enqueue
    /// yields at most one outcome.
    pub fn fill(&mut self, v: T) -> (accepted: bool)
        ensures
            accepted == (old(self)@ is None),
            old(self)@ is None ==> final(self)@ == Some(v),
            old(self)@ is Some ==> final(self)@ == old(self)@,
    {
        if self.value.is_none() {
            self.value = Some(v);
            true
        } else {
            false
        }
    }

    /// Takes the outcome, leaving the slot empty: the first take after the
    /// fill yields exactly the delivered value, every later take yields
    /// nothing.
    pub fn take(&mut self) -> (r: Option<T>)
        ensures
            r == old(self)@,
            final(self)@ is None,
    {
        self.value.take()
    }

    /// Whether the outcome has been delivered and not yet taken.
    pub fn is_filled(&self) -> (b: bool)
        ensures
            b == (self@ is Some),
    {
        self.value.is_some()
    }
}

} // verus!
