//! The time at which an answer is given.

use vstd::prelude::*;

verus! {

/// A point in time: seconds since the start of 1970 in UTC, and the
/// nanoseconds into that second.
#[derive(Debug, Clone, Copy, PartialEq, Eq, Structural)]
pub struct Timestamp {
    pub seconds: i64,
    pub nanoseconds: u32,
}

/// Reads the clock with `chrono::Utc::now` and takes the time apart into
/// seconds and nanoseconds. Nothing is claimed of the time that comes back.
/// The call panics on a machine whose clock stands before 1970.
#[verifier::external_body]
pub(crate) fn now() -> (time: Timestamp) {
    let now = chrono::Utc::now();
    Timestamp { seconds: now.timestamp(), nanoseconds: now.timestamp_subsec_nanos() }
}

} // verus!
