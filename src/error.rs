use vstd::prelude::*;

verus! {

/// Errors reported synchronously to the caller of the pool.
#[derive(Clone, Copy, Debug, PartialEq, Eq, Structural)]
pub enum PoolError {
    /// A pool was requested with zero workers.
    InvalidPoolSize,
    /// A job was submitted after the queue was closed for teardown.
    QueueClosed,
}

} // verus!
