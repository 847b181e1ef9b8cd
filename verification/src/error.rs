//! The errors that the pool hands back to its callers.

use vstd::prelude::*;

verus! {

/// Why the pool refused a request.
#[derive(Clone, Copy, Debug, PartialEq, Eq, Structural)]
pub enum PoolError {
    /// A pool was asked for with no workers.
    InvalidArgument,
    /// A job was submitted after shutdown had begun.
    PoolClosed,
}

} // verus!
