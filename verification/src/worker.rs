//! Workers: their bookkeeping record, and what one of them does with a
//! message.

use vstd::prelude::*;
use crate::message::Message;

verus! {

/// Where a worker stands in its loop.
#[derive(Clone, Copy, PartialEq, Eq, Structural, Debug)]
pub enum WorkerPhase {
    /// Waiting for a message.
    Idle,
    /// Running the job it was handed last.
    Busy,
    /// Told to stop: the loop has ended and will take no further message.
    Exited,
}

/// The pool's record of one worker.
///
/// `thread` stands for the handle of the worker's background thread: it holds
/// the worker's own id while the pool still has to wait for that thread, and
/// nothing once the handle was given out to be joined.
#[derive(Clone, Copy, PartialEq, Eq, Debug)]
pub struct Worker {
    /// The worker's place in the pool's table.
    pub id: usize,
    /// The token of the worker's thread, until it is given out.
    pub thread: Option<usize>,
    /// Where the worker stands in its loop.
    pub phase: WorkerPhase,
}

/// What a worker has to do after it handled one message.
#[derive(Debug, PartialEq, Eq)]
pub enum Outcome<R, S> {
    /// The job ran to completion and returned the value; where a reply handle
    /// came with the job, the value is owed to it.
    Finished(R, Option<S>),
    /// The worker was told to stop: its loop ends.
    Exit,
}

impl Worker {
    /// A worker that has not left its loop.
    pub open spec fn is_live(self) -> bool {
        !(self.phase is Exited)
    }

    /// A worker in the middle of a job.
    pub open spec fn is_busy(self) -> bool {
        self.phase is Busy
    }

    /// The record of a freshly started worker: idle, its thread not joined.
    pub fn new(id: usize) -> (w: Worker)
        ensures
            w == (Worker { id, thread: Some(id), phase: WorkerPhase::Idle }),
    {
        Worker { id, thread: Some(id), phase: WorkerPhase::Idle }
    }

    /// Gives out the thread token for joining. Only the first call on a worker
    /// yields it; every later one finds nothing and changes nothing.
    pub fn take_thread(&mut self) -> (token: Option<usize>)
        ensures
            token == old(self).thread,
            *final(self) == (Worker { thread: None, ..*old(self) }),
    {
        let token = self.thread;
        self.thread = None;
        token
    }

    /// Whether `outcome` is what handling `message` may give: for a job, a value
    /// that the job can return together with the reply handle that came with
    /// the job; for a stop order, the order to leave the loop.
    pub open spec fn handled<J, R, S>(message: Message<J, S>, outcome: Outcome<R, S>) -> bool
        where J: FnOnce() -> R
    {
        match message {
            Message::NewJob(job, reply) => outcome matches Outcome::Finished(value, to)
                && call_ensures(job, (), value) && to == reply,
            Message::Terminate => outcome is Exit,
        }
    }

    /// Handles one message on the calling thread: runs the job it carries, once
    /// and to completion, or reports that the worker has to stop.
    pub fn process<J, R, S>(message: Message<J, S>) -> (outcome: Outcome<R, S>)
        where J: FnOnce() -> R
        requires
            message matches Message::NewJob(job, _) ==> call_requires(job, ()),
        ensures
            Self::handled(message, outcome),
    {
        match message {
            Message::NewJob(job, reply) => {
                let value = job();
                Outcome::Finished(value, reply)
            },
            Message::Terminate => Outcome::Exit,
        }
    }
}

/// How many of the workers have not left their loop.
pub open spec fn live_count(workers: Seq<Worker>) -> nat
    decreases workers.len(),
{
    if workers.len() == 0 {
        0
    } else {
        live_count(workers.drop_last()) + if workers.last().is_live() { 1nat } else { 0nat }
    }
}

/// How many of the workers are in the middle of a job.
pub open spec fn busy_count(workers: Seq<Worker>) -> nat
    decreases workers.len(),
{
    if workers.len() == 0 {
        0
    } else {
        busy_count(workers.drop_last()) + if workers.last().is_busy() { 1nat } else { 0nat }
    }
}

/// Neither count exceeds the number of workers, and a busy worker is live.
pub proof fn lemma_counts_bounded(workers: Seq<Worker>)
    ensures
        busy_count(workers) <= live_count(workers) <= workers.len(),
    decreases workers.len(),
{
    if workers.len() > 0 {
        lemma_counts_bounded(workers.drop_last());
    }
}

/// Replacing one record moves each count by what that record contributes.
pub proof fn lemma_counts_update(workers: Seq<Worker>, i: int, w: Worker)
    requires
        0 <= i < workers.len(),
    ensures
        live_count(workers.update(i, w)) + (if workers[i].is_live() { 1nat } else { 0nat })
            == live_count(workers) + (if w.is_live() { 1nat } else { 0nat }),
        busy_count(workers.update(i, w)) + (if workers[i].is_busy() { 1nat } else { 0nat })
            == busy_count(workers) + (if w.is_busy() { 1nat } else { 0nat }),
    decreases workers.len(),
{
    let updated = workers.update(i, w);
    if i == workers.len() - 1 {
        assert(updated.drop_last() =~= workers.drop_last());
    } else {
        assert(updated.drop_last() =~= workers.drop_last().update(i, w));
        lemma_counts_update(workers.drop_last(), i, w);
    }
}

/// Two tables whose records agree on the phase, place by place, count alike.
pub proof fn lemma_counts_follow_phases(a: Seq<Worker>, b: Seq<Worker>)
    requires
        a.len() == b.len(),
        forall|i: int| 0 <= i < a.len() ==> a[i].phase == b[i].phase,
    ensures
        live_count(a) == live_count(b),
        busy_count(a) == busy_count(b),
    decreases a.len(),
{
    if a.len() > 0 {
        lemma_counts_follow_phases(a.drop_last(), b.drop_last());
    }
}

/// Every worker is live exactly when the live count is the table's length.
pub proof fn lemma_all_live(workers: Seq<Worker>)
    ensures
        live_count(workers) == workers.len() <==> forall|i: int|
            0 <= i < workers.len() ==> workers[i].is_live(),
    decreases workers.len(),
{
    if workers.len() > 0 {
        let front = workers.drop_last();
        lemma_all_live(front);
        lemma_counts_bounded(front);
        if live_count(workers) == workers.len() {
            assert forall|i: int| 0 <= i < workers.len() implies workers[i].is_live() by {
                if i < front.len() {
                    assert(front[i] == workers[i]);
                }
            }
        }
        if forall|i: int| 0 <= i < workers.len() ==> workers[i].is_live() {
            assert forall|i: int| 0 <= i < front.len() implies front[i].is_live() by {
                assert(front[i] == workers[i]);
            }
        }
    }
}

/// No worker is live exactly when the live count is zero.
pub proof fn lemma_none_live(workers: Seq<Worker>)
    ensures
        live_count(workers) == 0 <==> forall|i: int|
            0 <= i < workers.len() ==> !workers[i].is_live(),
    decreases workers.len(),
{
    if workers.len() > 0 {
        let front = workers.drop_last();
        lemma_none_live(front);
        if live_count(workers) == 0 {
            assert forall|i: int| 0 <= i < workers.len() implies !workers[i].is_live() by {
                if i < front.len() {
                    assert(front[i] == workers[i]);
                }
            }
        }
        if forall|i: int| 0 <= i < workers.len() ==> !workers[i].is_live() {
            assert forall|i: int| 0 <= i < front.len() implies !front[i].is_live() by {
                assert(front[i] == workers[i]);
            }
        }
    }
}

} // verus!
