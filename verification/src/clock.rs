//! Trusted boundary to the quanta crate: the monotonic clock whose raw
//! readings measure how long a span ran.
//!
//! A reading depends on the moment it is taken, so nothing relates two
//! readings here; the library's own functions take the resulting elapsed
//! time as an argument and are verified for every value of it.

use vstd::prelude::*;

verus! {

/// The quanta monotonic clock.  Opaque: the library only threads values of
/// it through to the readings below.
#[verifier::external_type_specification]
#[verifier::external_body]
pub struct ExClock(quanta::Clock);

/// Relies on quanta::Clock::new: a calibrated monotonic clock.
#[verifier::external_body]
pub(crate) fn clock_new() -> quanta::Clock {
    quanta::Clock::new()
}

/// Relies on quanta::Clock::raw: a raw reading of the monotonic clock.  The
/// value depends on the moment of the call, so nothing is stated of it.
#[verifier::external_body]
pub(crate) fn clock_raw(clock: &quanta::Clock) -> u64 {
    clock.raw()
}

/// Relies on quanta::Clock::delta_as_nanos: the elapsed nanoseconds between
/// two raw readings.  Its source returns 0 whenever `end <= start`, so the
/// result never runs backwards; the scale applied to a genuine difference
/// comes from the clock's calibration and is not stated here.
#[verifier::external_body]
pub(crate) fn clock_delta_ns(clock: &quanta::Clock, start: u64, end: u64) -> (r: u64)
    ensures
        end <= start ==> r == 0,
{
    clock.delta_as_nanos(start, end)
}

} // verus!
