//! A fixed-size worker pool, kept as a verified state machine, together with
//! the content hashing and duplicate grouping that its jobs perform.
//!
//! The pool's decisions (which job goes to which worker, when submission is
//! refused, when every worker has exited) are made here, on plain values. A
//! thin shell outside this crate owns the threads and the lock around the
//! pool, and calls in for every decision.

pub mod error;
pub mod job_queue;
pub mod hasher;
pub mod worker;
pub mod model;
pub mod thread_pool;
pub mod laws;
pub mod duplicates;
