//! The pool itself: the queue, the worker table and the operations on them.

use std::collections::VecDeque;
use vstd::prelude::*;
use crate::message::Message;
use crate::model::{stop_orders, PoolModel, PoolState};
use crate::worker::{Worker, WorkerPhase};

verus! {

/// A fixed set of workers behind one first-in, first-out queue of messages.
///
/// The pool does no waiting and starts no thread. Its driver runs one thread
/// per worker and keeps the pool behind one lock: a submitter calls
/// [`execute`](ThreadPool::execute), a worker thread calls
/// [`receive`](ThreadPool::receive) under the lock and handles the message
/// outside it, and [`join`](ThreadPool::join) says which threads to wait for.
pub struct ThreadPool<J, S> {
    workers: Vec<Worker>,
    queue: VecDeque<Message<J, S>>,
    debug: bool,
    is_running: bool,
    accepted: Ghost<Seq<(J, Option<S>)>>,
    dispatched: Ghost<nat>,
    finished: Ghost<nat>,
}

impl<J, S> View for ThreadPool<J, S> {
    type V = PoolModel<J, S>;

    closed spec fn view(&self) -> PoolModel<J, S> {
        PoolModel {
            queue: self.queue@,
            workers: self.workers@,
            running: self.is_running,
            debug: self.debug,
            accepted: self.accepted@,
            dispatched: self.dispatched@,
            finished: self.finished@,
        }
    }
}

/// The number of workers that a request for `size` of them stands for: the
/// host's logical core count where none is asked for.
pub open spec fn resolved_size(size: usize, host_cores: usize) -> usize {
    if size == 0 {
        host_cores
    } else {
        size
    }
}

/// Resolves a requested pool size against the host's logical core count.
pub fn resolve_size(size: usize, host_cores: usize) -> (n: usize)
    ensures
        n == resolved_size(size, host_cores),
{
    if size == 0 {
        host_cores
    } else {
        size
    }
}

impl<J, S> ThreadPool<J, S> {
    /// Whether the pool is in a state that its operations can leave it in.
    pub open spec fn wf(&self) -> bool {
        self@.inv()
    }

    fn build(n: usize, debug: bool) -> (pool: Self)
        requires
            n >= 1,
        ensures
            pool.wf(),
            pool@ == PoolModel::<J, S>::init(n as nat, debug),
            pool@.state() == PoolState::Running,
    {
        let mut workers: Vec<Worker> = Vec::new();
        let mut id: usize = 0;
        while id < n
            invariant
                id <= n,
                workers@.len() == id,
                forall|i: int|
                    0 <= i < id ==> workers@[i] == (Worker {
                        id: i as usize,
                        thread: Some(i as usize),
                        phase: WorkerPhase::Idle,
                    }),
            decreases n - id,
        {
            workers.push(Worker::new(id));
            id += 1;
        }
        let pool = ThreadPool {
            workers,
            queue: VecDeque::new(),
            debug,
            is_running: true,
            accepted: Ghost(Seq::empty()),
            dispatched: Ghost(0),
            finished: Ghost(0),
        };
        proof {
            let m = PoolModel::<J, S>::init(n as nat, debug);
            PoolModel::<J, S>::lemma_init_inv(n as nat, debug);
            assert(pool@.workers =~= m.workers);
        }
        pool
    }

    /// A running pool of `size` workers, or of one worker per logical core of
    /// the host where `size` is 0. Its queue is empty and every worker idle.
    pub fn new(size: usize, host_cores: usize) -> (pool: Self)
        requires
            size > 0 || host_cores > 0,
        ensures
            pool.wf(),
            pool@ == PoolModel::<J, S>::init(resolved_size(size, host_cores) as nat, false),
            pool@.size() == resolved_size(size, host_cores) >= 1,
            pool@.state() == PoolState::Running,
    {
        Self::build(resolve_size(size, host_cores), false)
    }

    /// As [`new`](ThreadPool::new), with lifecycle logging asked of the driver.
    pub fn new_with_debug(size: usize, host_cores: usize) -> (pool: Self)
        requires
            size > 0 || host_cores > 0,
        ensures
            pool.wf(),
            pool@ == PoolModel::<J, S>::init(resolved_size(size, host_cores) as nat, true),
            pool@.size() == resolved_size(size, host_cores) >= 1,
            pool@.state() == PoolState::Running,
    {
        Self::build(resolve_size(size, host_cores), true)
    }

    fn enqueue(&mut self, job: J, reply: Option<S>)
        requires
            old(self).wf(),
            old(self)@.running,
        ensures
            final(self).wf(),
            final(self)@ == old(self)@.submit(job, reply),
    {
        proof {
            self@.lemma_submit_inv(job, reply);
        }
        self.accepted = Ghost(self.accepted@.push((job, reply)));
        self.queue.push_back(Message::NewJob(job, reply));
    }

    /// Submits a job whose value nobody waits for: it goes to the back of the
    /// queue, and some worker will run it. The pool must be running.
    pub fn execute(&mut self, job: J)
        requires
            old(self).wf(),
            old(self)@.running,
        ensures
            final(self).wf(),
            final(self)@ == old(self)@.submit(job, None),
    {
        self.enqueue(job, None)
    }

    /// Submits a job together with the sending half of the channel on which
    /// its value is awaited. The pool must be running.
    pub fn execute_with_reply(&mut self, job: J, reply: S)
        requires
            old(self).wf(),
            old(self)@.running,
        ensures
            final(self).wf(),
            final(self)@ == old(self)@.submit(job, Some(reply)),
    {
        self.enqueue(job, Some(reply))
    }

    /// Hands worker `worker` its next message, the oldest in the queue, and
    /// records what the worker does next: it is busy with a job, has left its
    /// loop on a stop order, or idles where the queue is empty. A worker that
    /// has left its loop gets nothing and changes nothing.
    pub fn receive(&mut self, worker: usize) -> (message: Option<Message<J, S>>)
        requires
            old(self).wf(),
            worker < old(self)@.size(),
        ensures
            final(self).wf(),
            message == old(self)@.next_message(worker as int),
            final(self)@ == old(self)@.receive(worker as int),
    {
        let me = self.workers[worker];
        proof {
            self@.lemma_receive_inv(worker as int);
        }
        match me.phase {
            WorkerPhase::Exited => {
                return None;
            },
            WorkerPhase::Busy => {
                self.finished = Ghost(self.finished@ + 1);
            },
            WorkerPhase::Idle => {},
        }
        let message = self.queue.pop_front();
        let phase = match &message {
            None => WorkerPhase::Idle,
            Some(Message::NewJob(_, _)) => {
                self.dispatched = Ghost(self.dispatched@ + 1);
                WorkerPhase::Busy
            },
            Some(Message::Terminate) => WorkerPhase::Exited,
        };
        self.workers.set(worker, Worker { id: me.id, thread: me.thread, phase });
        message
    }

    /// Begins the shutdown: puts one stop order per worker behind everything
    /// queued, stops accepting jobs, and returns the thread tokens to wait for,
    /// in worker-id order. On a pool that was shut down before, nothing is
    /// enqueued and no token is returned.
    pub fn join(&mut self) -> (threads: Vec<usize>)
        requires
            old(self).wf(),
        ensures
            final(self).wf(),
            final(self)@ == old(self)@.shut_down(),
            threads@ == old(self)@.threads_to_join(),
    {
        let mut threads: Vec<usize> = Vec::new();
        if !self.is_running {
            return threads;
        }
        let ghost before = self@;
        proof {
            before.lemma_shut_down_inv();
        }
        let n = self.workers.len();
        let mut sent: usize = 0;
        while sent < n
            invariant
                sent <= n,
                n == before.workers.len(),
                self@ == (PoolModel {
                    queue: before.queue + stop_orders::<J, S>(sent as nat),
                    ..before
                }),
            decreases n - sent,
        {
            self.queue.push_back(Message::Terminate);
            sent += 1;
            assert(self.queue@ =~= before.queue + stop_orders::<J, S>(sent as nat));
        }
        let mut id: usize = 0;
        while id < n
            invariant
                id <= n,
                n == before.workers.len(),
                before.inv(),
                before.running,
                self.workers@.len() == n,
                forall|i: int|
                    0 <= i < id ==> self.workers@[i] == (Worker {
                        thread: None,
                        ..before.workers[i]
                    }),
                forall|i: int| id <= i < n ==> self.workers@[i] == before.workers[i],
                threads@ == Seq::new(id as nat, |i: int| i as usize),
                self@ == (PoolModel {
                    queue: before.queue + stop_orders::<J, S>(n as nat),
                    workers: self.workers@,
                    ..before
                }),
            decreases n - id,
        {
            let mut me = self.workers[id];
            if let Some(token) = me.take_thread() {
                threads.push(token);
            }
            self.workers.set(id, me);
            id += 1;
            assert(threads@ =~= Seq::new(id as nat, |i: int| i as usize));
        }
        self.is_running = false;
        assert(self@.workers =~= before.shut_down().workers);
        threads
    }

    /// The number of workers.
    pub fn size(&self) -> (n: usize)
        ensures
            n == self@.size(),
    {
        self.workers.len()
    }

    /// Whether jobs are accepted.
    pub fn is_running(&self) -> (b: bool)
        ensures
            b == self@.running,
    {
        self.is_running
    }

    /// Whether lifecycle logging was asked for.
    pub fn debug(&self) -> (b: bool)
        ensures
            b == self@.debug,
    {
        self.debug
    }

    /// The number of messages waiting for a worker.
    pub fn queued(&self) -> (n: usize)
        ensures
            n == self@.queue.len(),
    {
        self.queue.len()
    }

    /// The pool's record of worker `id`.
    pub fn worker(&self, id: usize) -> (w: Worker)
        requires
            id < self@.size(),
        ensures
            w == self@.workers[id as int],
    {
        self.workers[id]
    }

    /// Where the pool stands in its lifecycle.
    pub fn state(&self) -> (s: PoolState)
        requires
            self.wf(),
        ensures
            s == self@.state(),
    {
        proof {
            self@.lemma_queue_length();
        }
        if self.is_running {
            PoolState::Running
        } else if self.queue.len() > 0 {
            PoolState::ShuttingDown
        } else {
            PoolState::Terminated
        }
    }
}

} // verus!
