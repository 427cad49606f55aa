//! A fixed-size worker pool, as a verified sequential core.
//!
//! The pool coordinates a bounded set of long-lived workers through one shared
//! first-in, first-out job queue. Everything that decides something lives here:
//! when a submission is accepted, which worker may dequeue, what a worker does
//! with what it received, and in which order the owner joins the workers at
//! shutdown. Threads, blocking and printing belong to the embedding program,
//! which performs each step under one lock and reports back what happened.
//!
//! - [`queue`]: the job queue, first in, first out, with a closable producer.
//! - [`worker`]: one worker and the states of its loop.
//! - [`model`]: the pool as a state machine over mathematical values.
//! - [`preserve`]: the proof that every operation keeps the pool valid.
//! - [`pool`]: the executable pool, specified by the model.
//! - [`laws`]: what holds of every pool, proved from the model.
//! - [`parallel`]: that jobs run side by side, as many as there are workers.
//! - [`http`]: what a job of the server computes for one connection.

pub mod http;
pub mod laws;
pub mod model;
pub mod parallel;
pub mod pool;
pub mod preserve;
pub mod queue;
pub mod worker;

pub use pool::ThreadPool;
