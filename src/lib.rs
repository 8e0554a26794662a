//! A fixed-size worker pool, described as verified state machines.
//!
//! `queue` holds the closable first-in first-out job queue, `worker` the
//! state machine of one worker, and `pool` the pool that ties a queue to a
//! fixed set of workers and orders its shutdown. Threads, locks and waiting
//! are left to the caller, which drives these machines under one lock.

pub mod queue;
pub mod worker;
pub mod pool;
