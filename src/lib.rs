//! Scheduling core of a fixed-size worker pool.
//!
//! The library decides everything a worker pool decides: whether a pool of a
//! given size may be built, whether a submission is accepted, which job an idle
//! worker receives next, when a worker must wait or stop, and when teardown is
//! complete. Running the threads, blocking and waking them, and executing the
//! jobs themselves is left to the caller, which drives the pool by calling its
//! methods under a lock.
pub mod error;
pub mod pool;
pub mod queue;
pub mod worker;
