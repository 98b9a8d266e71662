//! A fixed-size worker pool, written as a deterministic core.
//!
//! The pool owns the job queue and the worker table, and every decision of
//! the dispatch and shutdown protocol is taken here: which message a worker
//! is handed, when it stops, what a shutdown sends and which threads it waits
//! for. The pool itself starts no thread and never blocks. A driver runs one
//! thread per worker, keeps the pool behind a lock, and does the waiting.
//!
//! - [`pool`] holds the pool and its operations,
//! - [`worker`] the workers' records and what a worker does with a message,
//! - [`message`] the envelope that travels through the queue,
//! - [`reply`] the one-shot channel for a job's value,
//! - [`model`] the state machine that the pool stands for, with its invariant,
//! - [`laws`] what follows for every run of that machine.

pub mod laws;
pub mod message;
pub mod model;
pub mod pool;
pub mod reply;
pub mod worker;

pub use crate::message::Message;
pub use crate::model::PoolState;
pub use crate::pool::ThreadPool;
pub use crate::reply::ResultSlot;
pub use crate::worker::{Outcome, Worker, WorkerPhase};
