//! The clock that stamps players with the time they were last heard from.
use vstd::prelude::*;

verus! {

/// Calls `time::precise_time_ns`, which reads a high-resolution performance
/// counter, in nanoseconds since an unspecified epoch. Nothing is promised
/// of the value: it depends on when the call is made.
#[verifier::external_body]
pub(crate) fn precise_time_ns() -> u64 {
    time::precise_time_ns()
}

} // verus!
