//! The stream pipeline's reaction to failures.
use vstd::prelude::*;
use crate::error::Error;

verus! {

/// What to do once a connection ended with an error.
#[derive(Debug, Clone, Copy, PartialEq, Eq, Structural)]
pub enum RetryPolicy {
    /// Reconnect after this many seconds.
    WaitRetry { seconds: u64 },
    /// Give up and surface the error.
    ForwardError,
}

/// Whether a failure on one item ends the connection (else the item is skipped).
pub open spec fn ends_connection(e: Error) -> bool {
    matches!(e, Error::StreamUnexpected | Error::StreamEOF | Error::BadResponse)
}

/// The failures that end a connection: unexpected stream errors, a clean
/// end of stream, and a bad response.
pub fn reconnects(e: &Error) -> (r: bool)
    ensures
        r == ends_connection(*e),
{
    match e {
        Error::StreamUnexpected | Error::StreamEOF | Error::BadResponse => true,
        _ => false,
    }
}

/// The backoff after a connection ended: five seconds after an unexpected
/// error or a bad response, one after a clean end of stream; any other error
/// is fatal.
pub fn retry_policy(e: &Error) -> (r: RetryPolicy)
    ensures
        match *e {
            Error::StreamUnexpected | Error::BadResponse => r == RetryPolicy::WaitRetry { seconds: 5 },
            Error::StreamEOF => r == RetryPolicy::WaitRetry { seconds: 1 },
            _ => r == RetryPolicy::ForwardError,
        },
{
    match e {
        Error::StreamUnexpected => RetryPolicy::WaitRetry { seconds: 5 },
        Error::BadResponse => RetryPolicy::WaitRetry { seconds: 5 },
        Error::StreamEOF => RetryPolicy::WaitRetry { seconds: 1 },
        _ => RetryPolicy::ForwardError,
    }
}

} // verus!
