//! The probe runner: what a probe of the monitored URL records.

use crate::record::{Outcome, ProbeRecord};
use vstd::prelude::*;

verus! {

/// What the clock showed when a probe started.
#[derive(Clone, Copy, Debug, PartialEq, Eq, Structural)]
pub struct ProbeStart {
    /// Seconds since the epoch at the start of the probe.
    pub timestamp: i64,
    /// Milliseconds since the epoch just before the GET was sent.
    pub sent_millis: i64,
}

/// The milliseconds from one reading of the wall clock to a later one, held
/// to the range of `i64`. It is negative where the clock was set back
/// between the two readings.
pub open spec fn elapsed_millis(before: i64, after: i64) -> i64 {
    if after - before > i64::MAX {
        i64::MAX
    } else if after - before < i64::MIN {
        i64::MIN
    } else {
        (after - before) as i64
    }
}

/// The record of a probe that started at `start` and ended, completed or
/// not, when the clock showed `ended_millis`.
pub open spec fn probe_record(start: ProbeStart, completed: bool, ended_millis: i64) -> ProbeRecord {
    ProbeRecord {
        timestamp: start.timestamp,
        outcome: Outcome::of_completion(completed),
        latency_millis: elapsed_millis(start.sent_millis, ended_millis),
    }
}

/// The milliseconds from the reading `before` to the reading `after`.
pub fn latency_between(before: i64, after: i64) -> (millis: i64)
    ensures
        millis == elapsed_millis(before, after),
{
    match after.checked_sub(before) {
        Some(span) => span,
        None => if after >= before {
            i64::MAX
        } else {
            i64::MIN
        },
    }
}

impl ProbeStart {
    /// The record of this probe, given whether its GET completed and what
    /// the clock showed just after. A transport failure is recorded, not
    /// raised: the latency is measured either way.
    pub fn finish(self, completed: bool, ended_millis: i64) -> (record: ProbeRecord)
        ensures
            record == probe_record(self, completed, ended_millis),
    {
        ProbeRecord {
            timestamp: self.timestamp,
            outcome: Outcome::from_completion(completed),
            latency_millis: latency_between(self.sent_millis, ended_millis),
        }
    }
}

} // verus!
