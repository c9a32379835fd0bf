//! The polling of a Windows Runtime asynchronous operation, as the media
//! session reads and transport commands wait for one.

use vstd::prelude::*;

verus! {

/// The status of an asynchronous operation (`Windows.Foundation.AsyncStatus`).
#[derive(Debug, Clone, Copy, PartialEq, Eq)]
pub enum AsyncStatus {
    Started,
    Completed,
    Canceled,
    Error,
}

/// What to do after reading an operation's status.
#[derive(Debug, Clone, Copy, PartialEq, Eq)]
pub enum PollStep {
    /// The result can be fetched.
    Ready,
    /// The operation failed or was cancelled.
    Failed,
    /// Sleep 5 ms and read the status again.
    Wait,
}

/// The step after reading `status`.
pub fn poll_step(status: AsyncStatus) -> (p: PollStep)
    ensures
        p == match status {
            AsyncStatus::Completed => PollStep::Ready,
            AsyncStatus::Canceled | AsyncStatus::Error => PollStep::Failed,
            AsyncStatus::Started => PollStep::Wait,
        },
{
    match status {
        AsyncStatus::Completed => PollStep::Ready,
        AsyncStatus::Canceled | AsyncStatus::Error => PollStep::Failed,
        AsyncStatus::Started => PollStep::Wait,
    }
}

/// The milliseconds slept between two status reads.
pub fn poll_interval_ms() -> (ms: u64)
    ensures
        ms == 5,
{
    5
}

} // verus!
