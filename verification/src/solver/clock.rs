//! A monotonic clock for the elapsed-time budget, and the few conversions of
//! `std::time` values the solver needs.
//!
//! What the clock reads depends on when it is read, so nothing is promised of
//! it beyond its type.
use std::time::{Duration, Instant};
use vstd::prelude::*;

verus! {

/// `std::time::Instant`, a point on the monotonic clock.
#[verifier::external_type_specification]
#[verifier::external_body]
pub struct ExInstant(Instant);

/// `Instant::now`: the current point on the monotonic clock (nothing is
/// promised of it: it depends on when it is called).
#[verifier::external_body]
fn instant_now() -> (i: Instant) {
    Instant::now()
}

/// `Instant::elapsed`: the time since `i` (nothing is promised of it: it
/// depends on when it is called).
#[verifier::external_body]
fn instant_elapsed(i: &Instant) -> (d: Duration) {
    i.elapsed()
}

/// `Duration::as_nanos`: the length of `d` in nanoseconds. What is left unsaid:
/// that it is that length (a `Duration` has no value form a contract can name).
#[verifier::external_body]
pub(crate) fn duration_nanos(d: &Duration) -> (n: u128) {
    d.as_nanos()
}

/// `Duration::as_secs`: the whole seconds of `d`. What is left unsaid: that it
/// is that count (a `Duration` has no value form a contract can name).
#[verifier::external_body]
fn duration_secs(d: &Duration) -> (n: u64) {
    d.as_secs()
}

/// `Duration::from_secs`: a duration of `secs` whole seconds. What is left
/// unsaid: that the result is that long (a `Duration` has no value form a
/// contract can name).
#[verifier::external_body]
pub(crate) fn duration_from_secs(secs: u64) -> (d: Duration) {
    Duration::from_secs(secs)
}

/// `Duration`'s `clone`: `Duration` is `Copy`, so a clone is the same value.
pub assume_specification[ <Duration as Clone>::clone ](d: &Duration) -> (r: Duration)
    ensures
        r == *d,
;

/// A monotonic clock started at a point in time.
pub struct Clock(Instant);

impl Clock {
    /// Start the clock now.
    pub fn start() -> (c: Clock) {
        Clock(instant_now())
    }

    /// The time since the clock was started.
    pub fn elapsed(&self) -> (d: Duration) {
        instant_elapsed(&self.0)
    }

    /// The whole seconds since the clock was started.
    pub fn elapsed_secs(&self) -> (n: u64) {
        duration_secs(&instant_elapsed(&self.0))
    }

    /// The whole milliseconds since the clock was started (`u64::MAX` past
    /// that).
    pub fn elapsed_millis(&self) -> (n: u64) {
        let ms = duration_nanos(&instant_elapsed(&self.0)) / 1_000_000;
        if ms > 0xFFFF_FFFF_FFFF_FFFF {
            0xFFFF_FFFF_FFFF_FFFF
        } else {
            ms as u64
        }
    }

    /// Whether at least `max` has passed since the clock was started.
    pub fn reached(&self, max: Duration) -> (b: bool) {
        let elapsed = instant_elapsed(&self.0);
        duration_nanos(&elapsed) >= duration_nanos(&max)
    }
}

} // verus!
