//! The one-shot channel on which a job's value travels back to whoever
//! submitted the job.

use vstd::prelude::*;

verus! {

/// A channel for exactly one value. The driver shares one slot between the
/// worker that runs a job, which sends, and the submitter, which receives.
#[derive(Debug, PartialEq, Eq)]
pub enum ResultSlot<R> {
    /// Nothing was sent yet.
    Empty,
    /// The value was sent and waits to be received.
    Ready(R),
    /// The value was received.
    Taken,
    /// An end of the channel went away before the value was passed on:
    /// nothing will be delivered.
    Closed,
}

impl<R> ResultSlot<R> {
    /// Whether a send finds the slot ready to take a value.
    pub open spec fn accepts(self) -> bool {
        self is Empty
    }

    /// The slot after `value` was sent on it.
    pub open spec fn after_send(self, value: R) -> Self {
        if self.accepts() {
            ResultSlot::Ready(value)
        } else {
            self
        }
    }

    /// What a receive yields.
    pub open spec fn received(self) -> Option<R> {
        match self {
            ResultSlot::Ready(value) => Some(value),
            _ => None,
        }
    }

    /// The slot after a receive.
    pub open spec fn after_recv(self) -> Self {
        match self {
            ResultSlot::Ready(_) => ResultSlot::Taken,
            _ => self,
        }
    }

    /// The slot after its sender went away.
    pub open spec fn after_abandon(self) -> Self {
        if self.accepts() {
            ResultSlot::Closed
        } else {
            self
        }
    }

    /// A fresh channel.
    pub fn new() -> (slot: Self)
        ensures
            slot == ResultSlot::<R>::Empty,
    {
        ResultSlot::Empty
    }

    /// Sends the value. This succeeds on a slot that nothing was sent on and
    /// that was not closed; otherwise the slot stays as it is and the value
    /// comes back as the error.
    pub fn send(&mut self, value: R) -> (r: Result<(), R>)
        ensures
            *final(self) == old(self).after_send(value),
            old(self).accepts() ==> r is Ok,
            !old(self).accepts() ==> r == Err::<(), R>(value),
    {
        if self.is_empty() {
            *self = ResultSlot::Ready(value);
            Ok(())
        } else {
            Err(value)
        }
    }

    /// Receives the value if it has arrived and was not received before.
    pub fn recv(&mut self) -> (value: Option<R>)
        ensures
            value == old(self).received(),
            *final(self) == old(self).after_recv(),
    {
        let mut slot = ResultSlot::Taken;
        core::mem::swap(self, &mut slot);
        match slot {
            ResultSlot::Ready(value) => Some(value),
            other => {
                *self = other;
                None
            },
        }
    }

    /// Records that the receiver went away: nothing can be delivered any more,
    /// and a value that waited is dropped.
    pub fn close(&mut self)
        ensures
            *final(self) == ResultSlot::<R>::Closed,
    {
        *self = ResultSlot::Closed;
    }

    /// Records that the sender went away. Where it had sent nothing, the
    /// channel is closed, so that nobody waits for a value that cannot come;
    /// a value that was sent stays to be received.
    pub fn abandon(&mut self)
        ensures
            *final(self) == old(self).after_abandon(),
    {
        if self.is_empty() {
            *self = ResultSlot::Closed;
        }
    }

    /// Whether nothing was sent yet and both ends are still there.
    pub fn is_empty(&self) -> (b: bool)
        ensures
            b == self.accepts(),
    {
        match self {
            ResultSlot::Empty => true,
            _ => false,
        }
    }

    /// Whether the channel was closed.
    pub fn is_closed(&self) -> (b: bool)
        ensures
            b == (*self is Closed),
    {
        match self {
            ResultSlot::Closed => true,
            _ => false,
        }
    }

    /// Whether a value waits to be received.
    pub fn is_ready(&self) -> (b: bool)
        ensures
            b == self.received().is_some(),
    {
        match self {
            ResultSlot::Ready(_) => true,
            _ => false,
        }
    }
}

} // verus!
