//! Reading the monotonic clock, for measuring how long a run took.

use vstd::prelude::*;

verus! {

/// `time::SteadyTime` is a reading of the operating system's monotonic
/// clock; a value of it is opaque here and only ever handed back to
/// `elapsed_nanos`.
#[verifier::external_type_specification]
#[verifier::external_body]
pub struct ExSteadyTime(time::SteadyTime);

/// Relies on `time::SteadyTime::now`: the current reading of the
/// monotonic clock.
#[verifier::external_body]
pub fn steady_now() -> (r: time::SteadyTime) {
    time::SteadyTime::now()
}

/// Relies on `time::SteadyTime::now`, the subtraction of two
/// `SteadyTime` readings, and `time::Duration::num_nanoseconds`: the
/// time elapsed since `start`, in nanoseconds. The clock is monotonic,
/// so a span measured forward from an earlier reading is never
/// negative; and `num_nanoseconds` returns the span whenever it fits
/// an `i64`, which holds of any span between two readings taken by one
/// process — an `i64` of nanoseconds covers about 292 years.
#[verifier::external_body]
pub fn elapsed_nanos(start: &time::SteadyTime) -> (r: Option<i64>)
    ensures
        r is Some,
        r matches Some(n) ==> n >= 0,
{
    (time::SteadyTime::now() - *start).num_nanoseconds()
}

} // verus!
