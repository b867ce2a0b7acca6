//! The two local clocks, read as whole microseconds.

use std::time::{Duration, Instant, SystemTime};
use vstd::prelude::*;

verus! {

/// `std::time::Instant`, a reading of the monotonic clock; nothing is known of
/// what a value holds.
#[verifier::external_type_specification]
#[verifier::external_body]
pub struct ExInstant(Instant);

/// `std::time::SystemTime`, a reading of the wall clock; nothing is known of
/// what a value holds.
#[verifier::external_type_specification]
#[verifier::external_body]
pub struct ExSystemTime(SystemTime);

/// `Instant::now` reads the monotonic clock; nothing is claimed of the reading.
pub assume_specification[ Instant::now ]() -> Instant;

/// `Instant::elapsed` gives the time since a reading; nothing is claimed of it.
pub assume_specification[ Instant::elapsed ](instant: &Instant) -> Duration;

/// `Instant::checked_add` gives the instant a duration later, or `None` where
/// the platform cannot represent it; nothing is claimed of which.
pub assume_specification[ Instant::checked_add ](instant: &Instant, duration: Duration) -> Option<
    Instant,
>;

/// `Instant::checked_sub` gives the instant a duration earlier, or `None` where
/// the platform cannot represent it; nothing is claimed of which.
pub assume_specification[ Instant::checked_sub ](instant: &Instant, duration: Duration) -> Option<
    Instant,
>;

/// `SystemTime::now` reads the wall clock; nothing is claimed of the reading.
pub assume_specification[ SystemTime::now ]() -> SystemTime;

/// `Duration::as_micros` gives the whole microseconds of a duration; nothing
/// is claimed of the number.
pub assume_specification[ Duration::as_micros ](duration: &Duration) -> u128;

/// `Duration::from_micros` makes a duration of whole microseconds; nothing is
/// claimed of it.
pub assume_specification[ Duration::from_micros ](micros: u64) -> Duration;

/// `SystemTime::duration_since`, asked for the time since the Unix epoch. It
/// fails where the wall clock reads earlier than the epoch, and `None` stands
/// for that failure; nothing is claimed of the duration.
#[verifier::external_body]
pub(crate) fn since_unix_epoch(time: &SystemTime) -> (elapsed: Option<Duration>) {
    time.duration_since(std::time::UNIX_EPOCH).ok()
}

/// A count of microseconds as a signed 64-bit number, where it fits.
pub open spec fn spec_micros_to_i64(micros: u128) -> Option<i64> {
    if micros <= i64::MAX as u128 {
        Some(micros as i64)
    } else {
        None
    }
}

/// Narrows a count of microseconds to a signed 64-bit number; `None` where it
/// does not fit.
pub fn micros_to_i64(micros: u128) -> (r: Option<i64>)
    ensures
        r == spec_micros_to_i64(micros),
        r matches Some(v) ==> v >= 0 && v as u128 == micros,
{
    if micros <= i64::MAX as u128 {
        Some(micros as i64)
    } else {
        None
    }
}

/// Microseconds since the Unix epoch on the wall clock. `None` where the
/// clock reads earlier than the epoch or the count leaves the 64-bit range.
pub fn wall_clock_micros() -> (now: Option<i64>)
    ensures
        now matches Some(v) ==> v >= 0,
{
    let time = SystemTime::now();
    match since_unix_epoch(&time) {
        Some(elapsed) => micros_to_i64(elapsed.as_micros()),
        None => None,
    }
}

/// Microseconds that have passed on the monotonic clock since `origin`,
/// held at the largest 64-bit number where the count is beyond it.
pub fn micros_since(origin: &Instant) -> (now: i64)
    ensures
        now >= 0,
{
    let elapsed = origin.elapsed();
    saturating_micros(elapsed.as_micros())
}

/// A count of microseconds as a signed 64-bit number, held at the largest
/// one where the count is beyond it.
pub open spec fn spec_saturating_micros(micros: u128) -> i64 {
    if micros <= i64::MAX as u128 {
        micros as i64
    } else {
        i64::MAX
    }
}

/// Narrows a count of microseconds to a signed 64-bit number, held at the
/// largest one where the count is beyond it.
pub fn saturating_micros(micros: u128) -> (r: i64)
    ensures
        r == spec_saturating_micros(micros),
        r >= 0,
{
    match micros_to_i64(micros) {
        Some(v) => v,
        None => i64::MAX,
    }
}

} // verus!
