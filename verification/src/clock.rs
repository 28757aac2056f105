//! The monotonic clock and durations as the library sees them.
//!
//! An `Instant` is opaque: the library stores it, hands it on, and asks std
//! how far apart two of them are. A `Duration` is known by its length in
//! nanoseconds.

use vstd::prelude::*;
use std::time::Duration;
use std::time::Instant;

verus! {

/// std's `Instant`, a reading of the monotonic clock. Nothing inside it is
/// visible here.
#[verifier::external_type_specification]
#[verifier::external_body]
pub struct ExInstant(std::time::Instant);

/// The length of a duration in whole nanoseconds, as `Duration::as_nanos`
/// reports it.
pub uninterp spec fn duration_nanos(d: Duration) -> nat;

/// The time from `earlier` to `later` as `Instant::duration_since` reports
/// it (zero where `earlier` is the later of the two).
pub uninterp spec fn instant_gap(later: Instant, earlier: Instant) -> Duration;

/// std's `Clone` for `Instant`, a `Copy` type: the clone is the value.
pub assume_specification[ <Instant as Clone>::clone ](t: &Instant) -> (r: Instant)
    ensures
        r == *t,
;

/// `Instant::now` reads the monotonic clock; nothing is known of the
/// reading.
pub assume_specification[ Instant::now ]() -> (r: Instant)
;

/// `Instant::duration_since` returns the time from `earlier` to this
/// instant, or zero if `earlier` is later.
pub assume_specification[ Instant::duration_since ](later: &Instant, earlier: Instant) -> (r:
    Duration)
    ensures
        r == instant_gap(*later, earlier),
;

/// `Duration::as_nanos` returns the whole length in nanoseconds.
pub assume_specification[ Duration::as_nanos ](d: &Duration) -> (n: u128)
    ensures
        n == duration_nanos(*d),
;

/// `Duration::as_micros` returns the whole microseconds of the length.
pub assume_specification[ Duration::as_micros ](d: &Duration) -> (n: u128)
    ensures
        n == duration_nanos(*d) / 1000,
;

/// `Duration::from_micros` makes the duration of that many microseconds.
pub assume_specification[ Duration::from_micros ](micros: u64) -> (d: Duration)
    ensures
        duration_nanos(d) == micros * 1000,
;

/// `Duration::from_nanos` makes the duration of that many nanoseconds.
pub assume_specification[ Duration::from_nanos ](nanos: u64) -> (d: Duration)
    ensures
        duration_nanos(d) == nanos,
;

/// `Duration::from_secs` makes the duration of that many seconds.
pub assume_specification[ Duration::from_secs ](secs: u64) -> (d: Duration)
    ensures
        duration_nanos(d) == secs * 1_000_000_000,
;

/// Whether `a` is strictly longer than `b`.
pub open spec fn longer_than(a: Duration, b: Duration) -> bool {
    duration_nanos(a) > duration_nanos(b)
}

} // verus!
