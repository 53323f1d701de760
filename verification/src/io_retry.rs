use vstd::prelude::*;

verus! {

/// What one call of an underlying `read`, `write` or `flush` came back with.
#[derive(PartialEq, Eq, Structural, Debug, Clone, Copy)]
pub enum IoAttempt {
    /// The call succeeded, moving this many bytes (zero for `flush`).
    Completed(usize),
    /// The call was interrupted before it did anything.
    Interrupted,
    /// The call failed for another reason.
    Failed,
}

/// What the stream wrappers do after an attempt.
#[derive(PartialEq, Eq, Structural, Debug, Clone, Copy)]
pub enum RetryDecision {
    /// Make the same call again.
    TryAgain,
    /// Hand the attempt's outcome to the caller.
    Deliver,
}

/// The stream wrappers' rule: an interrupted call is made again, and any
/// other outcome, success or failure, goes to the caller as it is.
pub fn retry_decision(attempt: IoAttempt) -> (d: RetryDecision)
    ensures
        d == RetryDecision::TryAgain <==> attempt == IoAttempt::Interrupted,
{
    match attempt {
        IoAttempt::Interrupted => RetryDecision::TryAgain,
        _ => RetryDecision::Deliver,
    }
}

} // verus!
