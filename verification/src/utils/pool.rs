//! The error of the execution context that hosts the policy engine.

use vstd::prelude::*;

verus! {

/// The number of execution slots that host the policy engine. Each submission runs in one
/// slot from start to end.
pub const POOL_SIZE: usize = 8;

/// The execution slot that ran a submission terminated abnormally.
#[derive(Debug)]
pub struct PoolError;

impl PoolError {
    /// The text shown for a failed submission.
    pub fn message(&self) -> (text: String)
        ensures
            text@ == "join error"@,
    {
        String::from_str("join error")
    }
}

} // verus!
