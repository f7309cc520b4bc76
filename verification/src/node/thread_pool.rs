//! The rules of the worker pool. The pool's threads and channel live with
//! the process runner; this module holds what can be decided without them:
//! whether a requested pool size is acceptable.

use vstd::prelude::*;

verus! {

/// Why a worker pool could not be created.
pub enum PoolCreationError {
    /// A pool needs at least one worker.
    TooFewThreads,
    /// A pool cannot have more workers than the machine can count.
    TooManyThreads,
}

impl PoolCreationError {
    /// A short report of the error.
    pub fn message(&self) -> (r: String)
        ensures
            self is TooFewThreads ==> r@
                == "You must use at least one thread on the pool"@,
            self is TooManyThreads ==> r@
                == "You must use less than the maximum number of threads on the pool"@,
    {
        match self {
            PoolCreationError::TooFewThreads => String::from_str(
                "You must use at least one thread on the pool",
            ),
            PoolCreationError::TooManyThreads => String::from_str(
                "You must use less than the maximum number of threads on the pool",
            ),
        }
    }
}

/// Whether a pool of `size` workers may be created: any size of at least
/// one worker is accepted.
pub fn check_pool_size(size: usize) -> (r: Result<(), PoolCreationError>)
    ensures
        r is Ok <==> size >= 1,
        r matches Err(e) ==> e is TooFewThreads,
{
    if size < 1 {
        Err(PoolCreationError::TooFewThreads)
    } else {
        Ok(())
    }
}

} // verus!
