//! The pool as a mathematical state machine.
//!
//! A `PoolModel` is what a `ThreadPool` stands for: the queue, the workers,
//! and a record of the jobs that were accepted, handed out and finished. The
//! steps of the machine are the pool's operations; `inv` is what holds between
//! any two of them.
//!
//! Shutdown follows a drain-before-terminate discipline. The queue is first
//! in, first out; the stop orders are enqueued behind every job, one per
//! worker; no job is accepted afterwards. So every job is handed out before
//! the first worker stops, and a worker stops only when it asks for its next
//! message, that is after the job it was running.

use vstd::prelude::*;
use crate::message::Message;
use crate::worker::{
    busy_count, lemma_all_live, lemma_counts_bounded, lemma_counts_follow_phases,
    lemma_counts_update, live_count, Worker, WorkerPhase,
};

verus! {

/// The pool's lifecycle, as seen between two operations. Construction leaves
/// the pool running, so no earlier state is ever observed.
#[derive(Clone, Copy, PartialEq, Eq, Structural, Debug)]
pub enum PoolState {
    /// Jobs are accepted.
    Running,
    /// The stop orders are in the queue and some worker has yet to take its own.
    ShuttingDown,
    /// Every worker has left its loop.
    Terminated,
}

/// The state of a pool of workers that run jobs of type `J`, some of them
/// submitted with a reply handle of type `S`.
pub ghost struct PoolModel<J, S> {
    /// The messages waiting for a worker, oldest first.
    pub queue: Seq<Message<J, S>>,
    /// The worker table, by worker id.
    pub workers: Seq<Worker>,
    /// Whether jobs are accepted.
    pub running: bool,
    /// Whether the driver logs the pool's lifecycle. Nothing else depends on it.
    pub debug: bool,
    /// Every job accepted so far with its reply handle, in the order of
    /// submission.
    pub accepted: Seq<(J, Option<S>)>,
    /// How many of the accepted jobs were handed to a worker.
    pub dispatched: nat,
    /// How many of them are known to have run to completion.
    pub finished: nat,
}

/// One operation on the pool.
pub ghost enum Step<J, S> {
    /// A job is submitted, with a reply handle or without.
    Submit(J, Option<S>),
    /// A shutdown is asked for.
    ShutDown,
    /// The worker of this id asks for its next message.
    Receive(int),
}

/// `n` stop orders in a row.
pub open spec fn stop_orders<J, S>(n: nat) -> Seq<Message<J, S>> {
    Seq::new(n, |i: int| Message::Terminate)
}

impl<J, S> PoolModel<J, S> {
    /// The number of workers.
    pub open spec fn size(self) -> nat {
        self.workers.len()
    }

    /// The workers that have not left their loop.
    pub open spec fn live(self) -> nat {
        live_count(self.workers)
    }

    /// The workers in the middle of a job.
    pub open spec fn busy(self) -> nat {
        busy_count(self.workers)
    }

    /// The accepted jobs that no worker has taken yet, as they wait in the
    /// queue.
    pub open spec fn waiting_jobs(self) -> Seq<Message<J, S>> {
        Seq::new(
            (self.accepted.len() - self.dispatched) as nat,
            |i: int|
                Message::NewJob(
                    self.accepted[self.dispatched + i].0,
                    self.accepted[self.dispatched + i].1,
                ),
        )
    }

    /// The stop orders that no worker has taken yet.
    pub open spec fn waiting_stop_orders(self) -> nat {
        if self.running {
            0
        } else {
            self.live()
        }
    }

    /// Where the pool stands in its lifecycle.
    pub open spec fn state(self) -> PoolState {
        if self.running {
            PoolState::Running
        } else if self.live() > 0 {
            PoolState::ShuttingDown
        } else {
            PoolState::Terminated
        }
    }

    /// What holds of a pool between any two operations.
    pub open spec fn inv(self) -> bool {
        // There is at least one worker, and each is found under its id.
        &&& self.workers.len() >= 1
        &&& forall|i: int| 0 <= i < self.workers.len() ==> (#[trigger] self.workers[i]).id == i
        // The pool holds every thread while it runs, and none once it was shut
        // down.
        &&& forall|i: int|
            0 <= i < self.workers.len() ==> (#[trigger] self.workers[i]).thread == (if self.running {
                Some(i as usize)
            } else {
                None
            })
        // The queue is the jobs that no worker has taken, oldest first, and
        // behind them one stop order for each worker that has yet to stop.
        &&& self.dispatched <= self.accepted.len()
        &&& self.queue == self.waiting_jobs() + stop_orders::<J, S>(self.waiting_stop_orders())
        // No worker stops while the pool runs, nor while a job waits.
        &&& self.running ==> self.live() == self.workers.len()
        &&& self.live() < self.workers.len() ==> self.dispatched == self.accepted.len()
        // A job that was handed out has finished or keeps its worker busy.
        &&& self.dispatched == self.finished + self.busy()
    }

    /// A new pool of `n` idle workers, with nothing in its queue.
    pub open spec fn init(n: nat, debug: bool) -> Self {
        PoolModel {
            queue: Seq::empty(),
            workers: Seq::new(
                n,
                |i: int| Worker { id: i as usize, thread: Some(i as usize), phase: WorkerPhase::Idle },
            ),
            running: true,
            debug,
            accepted: Seq::empty(),
            dispatched: 0,
            finished: 0,
        }
    }

    /// The pool after it accepted a job.
    pub open spec fn submit(self, job: J, reply: Option<S>) -> Self {
        PoolModel {
            queue: self.queue.push(Message::NewJob(job, reply)),
            accepted: self.accepted.push((job, reply)),
            ..self
        }
    }

    /// The thread tokens that a shutdown gives out to be joined, in the order
    /// in which they are to be waited for.
    pub open spec fn threads_to_join(self) -> Seq<usize> {
        if self.running {
            Seq::new(self.workers.len(), |i: int| i as usize)
        } else {
            Seq::empty()
        }
    }

    /// The pool after a shutdown was asked for: one stop order per worker
    /// behind what is queued, every thread token given out. On a pool that is
    /// not running, nothing changes.
    pub open spec fn shut_down(self) -> Self {
        if self.running {
            PoolModel {
                queue: self.queue + stop_orders::<J, S>(self.workers.len()),
                workers: Seq::new(
                    self.workers.len(),
                    |i: int| Worker { thread: None, ..self.workers[i] },
                ),
                running: false,
                ..self
            }
        } else {
            self
        }
    }

    /// What worker `w` is handed when it asks for its next message: the oldest
    /// one in the queue, whoever asks. A worker that has left its loop is
    /// handed nothing.
    pub open spec fn next_message(self, w: int) -> Option<Message<J, S>> {
        if self.workers[w].is_live() && self.queue.len() > 0 {
            Some(self.queue[0])
        } else {
            None
        }
    }

    /// The pool after worker `w` asked for its next message. By asking, the
    /// worker reports the job it was running as finished.
    pub open spec fn receive(self, w: int) -> Self {
        let me = self.workers[w];
        if !me.is_live() {
            self
        } else {
            let finished = self.finished + if me.is_busy() { 1nat } else { 0nat };
            if self.queue.len() == 0 {
                PoolModel {
                    workers: self.workers.update(w, Worker { phase: WorkerPhase::Idle, ..me }),
                    finished,
                    ..self
                }
            } else {
                match self.queue[0] {
                    Message::NewJob(_, _) => PoolModel {
                        queue: self.queue.drop_first(),
                        workers: self.workers.update(w, Worker { phase: WorkerPhase::Busy, ..me }),
                        dispatched: self.dispatched + 1,
                        finished,
                        ..self
                    },
                    Message::Terminate => PoolModel {
                        queue: self.queue.drop_first(),
                        workers: self.workers.update(w, Worker { phase: WorkerPhase::Exited, ..me }),
                        finished,
                        ..self
                    },
                }
            }
        }
    }

    /// Whether the operation may be asked of the pool: a job is submitted to
    /// a running pool only, and a message is asked for by a worker of the pool.
    pub open spec fn allows(self, step: Step<J, S>) -> bool {
        match step {
            Step::Submit(_, _) => self.running,
            Step::ShutDown => true,
            Step::Receive(w) => 0 <= w < self.workers.len(),
        }
    }

    /// The pool after the operation.
    pub open spec fn after(self, step: Step<J, S>) -> Self {
        match step {
            Step::Submit(job, reply) => self.submit(job, reply),
            Step::ShutDown => self.shut_down(),
            Step::Receive(w) => self.receive(w),
        }
    }

    /// The queue holds the jobs that no worker has taken and one stop order
    /// for each worker still to stop; once a worker has stopped, no job waits.
    pub proof fn lemma_queue_length(self)
        requires
            self.inv(),
        ensures
            self.queue.len() == self.accepted.len() - self.dispatched + self.waiting_stop_orders(),
            !self.running ==> (self.queue.len() == 0 <==> self.live() == 0),
    {
        lemma_counts_bounded(self.workers);
    }

    /// A new pool satisfies the invariant.
    pub proof fn lemma_init_inv(n: nat, debug: bool)
        requires
            1 <= n <= usize::MAX,
        ensures
            Self::init(n, debug).inv(),
            Self::init(n, debug).state() == PoolState::Running,
    {
        let m = Self::init(n, debug);
        lemma_all_live(m.workers);
        lemma_counts_bounded(m.workers);
        lemma_idle_table_has_no_busy(m.workers);
        assert(m.queue =~= m.waiting_jobs() + stop_orders::<J, S>(m.waiting_stop_orders()));
    }

    /// Accepting a job keeps the invariant of a running pool.
    pub proof fn lemma_submit_inv(self, job: J, reply: Option<S>)
        requires
            self.inv(),
            self.running,
        ensures
            self.submit(job, reply).inv(),
    {
        let next = self.submit(job, reply);
        assert(next.queue =~= next.waiting_jobs() + stop_orders::<J, S>(
            next.waiting_stop_orders(),
        ));
    }

    /// A shutdown keeps the invariant.
    pub proof fn lemma_shut_down_inv(self)
        requires
            self.inv(),
        ensures
            self.shut_down().inv(),
    {
        if self.running {
            let next = self.shut_down();
            lemma_counts_follow_phases(self.workers, next.workers);
            assert(next.queue =~= next.waiting_jobs() + stop_orders::<J, S>(
                next.waiting_stop_orders(),
            ));
        }
    }

    /// A worker asking for its next message keeps the invariant.
    pub proof fn lemma_receive_inv(self, w: int)
        requires
            self.inv(),
            0 <= w < self.workers.len(),
        ensures
            self.receive(w).inv(),
    {
        let me = self.workers[w];
        let next = self.receive(w);
        if me.is_live() {
            lemma_counts_update(self.workers, w, next.workers[w]);
            lemma_counts_bounded(self.workers);
            assert(next.workers =~= self.workers.update(w, next.workers[w]));
            if self.queue.len() > 0 {
                if self.waiting_jobs().len() > 0 {
                    assert(self.queue[0] == self.waiting_jobs()[0]);
                } else {
                    assert(self.queue[0] == stop_orders::<J, S>(self.waiting_stop_orders())[0]);
                }
            }
            assert(next.queue =~= next.waiting_jobs() + stop_orders::<J, S>(
                next.waiting_stop_orders(),
            ));
        }
    }

    /// Every operation that the pool allows keeps the invariant.
    pub proof fn lemma_step_inv(self, step: Step<J, S>)
        requires
            self.inv(),
            self.allows(step),
        ensures
            self.after(step).inv(),
            self.after(step).workers.len() == self.workers.len(),
    {
        match step {
            Step::Submit(job, reply) => self.lemma_submit_inv(job, reply),
            Step::ShutDown => self.lemma_shut_down_inv(),
            Step::Receive(w) => self.lemma_receive_inv(w),
        }
    }
}

/// A table of idle workers has nobody busy.
proof fn lemma_idle_table_has_no_busy(workers: Seq<Worker>)
    requires
        forall|i: int| 0 <= i < workers.len() ==> workers[i].phase is Idle,
    ensures
        busy_count(workers) == 0,
    decreases workers.len(),
{
    if workers.len() > 0 {
        lemma_idle_table_has_no_busy(workers.drop_last());
    }
}

} // verus!
