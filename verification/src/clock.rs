//! The monotonic clock that times the hover animation.

use vstd::prelude::*;

verus! {

/// Reads the monotonic clock through `time::precise_time_ns`: nanoseconds
/// since a moment that the system chooses.  Nothing is claimed of the value:
/// callers hand it on to functions that are verified for every reading.
#[verifier::external_body]
pub(crate) fn now() -> (nanos: u64) {
    time::precise_time_ns()
}

} // verus!
