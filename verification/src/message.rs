//! The envelope that travels through the pool's queue.

use vstd::prelude::*;

verus! {

/// What the pool hands to its workers: a job, with the sending half of a
/// result channel when the submitter waits for the value, or the order to stop.
#[derive(Debug, PartialEq, Eq)]
pub enum Message<J, S> {
    /// A job to run, and where its value is awaited, if anywhere.
    NewJob(J, Option<S>),
    /// The order to stop: the worker that takes it leaves its loop.
    Terminate,
}

impl<J, S> Message<J, S> {
    /// Whether this envelope carries a job.
    pub fn is_job(&self) -> (b: bool)
        ensures
            b == (*self is NewJob),
    {
        match self {
            Message::NewJob(_, _) => true,
            Message::Terminate => false,
        }
    }
}

} // verus!
