//! One observation of the monitored URL.

use vstd::prelude::*;

verus! {

/// How a probe ended.
#[derive(Clone, Copy, Debug, PartialEq, Eq, Structural)]
pub enum Outcome {
    /// The GET completed. The status code is not looked at: a 404 or a 500
    /// is a completed response.
    Success,
    /// The GET failed in the transport: DNS, connect, TLS or timeout.
    NoResponse,
}

impl Outcome {
    /// The outcome of a GET, given whether it completed.
    pub open spec fn of_completion(completed: bool) -> Outcome {
        if completed {
            Outcome::Success
        } else {
            Outcome::NoResponse
        }
    }

    /// Classifies a GET by whether it completed.
    pub fn from_completion(completed: bool) -> (outcome: Outcome)
        ensures
            outcome == Outcome::of_completion(completed),
    {
        if completed {
            Outcome::Success
        } else {
            Outcome::NoResponse
        }
    }
}

/// One probe of the monitored URL.
#[derive(Clone, Copy, Debug, PartialEq, Eq, Structural)]
pub struct ProbeRecord {
    /// Seconds since the epoch at which the probe started.
    pub timestamp: i64,
    /// Whether the GET completed.
    pub outcome: Outcome,
    /// Wall-clock milliseconds that the GET attempt took.
    pub latency_millis: i64,
}

} // verus!
