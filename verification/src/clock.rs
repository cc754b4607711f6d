//! The two clocks: wall time in seconds since the Unix epoch, and a steady clock that
//! counts nanoseconds since a chosen start.

use vstd::prelude::*;

verus! {

/// The latest second that chrono's `DateTime` can hold.
pub const LAST_SECOND: i64 = 8_210_266_876_799;

/// `chrono::Utc::now().timestamp()`: the wall clock's seconds since the Unix epoch,
/// not negative and within chrono's range. Which second it is, is left open.
#[verifier::external_body]
pub(crate) fn unix_timestamp() -> (r: i64)
    ensures
        0 <= r <= LAST_SECOND,
{
    chrono::Utc::now().timestamp()
}

#[verifier::external_type_specification]
#[verifier::external_body]
pub struct ExSystemTime(std::time::SystemTime);

#[verifier::external_type_specification]
#[verifier::external_body]
pub struct ExSystemTimeError(std::time::SystemTimeError);

#[verifier::external_type_specification]
#[verifier::external_body]
pub struct ExInstant(std::time::Instant);

/// `SystemTime::now`: the wall clock. Which time it is, is left open.
pub assume_specification[ std::time::SystemTime::now ]() -> std::time::SystemTime;

/// `SystemTime::duration_since` from `UNIX_EPOCH`: the time since the Unix epoch, an error
/// where the clock stands before it. Which of them it is, is left open.
#[verifier::external_body]
fn since_epoch(t: &std::time::SystemTime) -> Result<std::time::Duration, std::time::SystemTimeError> {
    t.duration_since(std::time::UNIX_EPOCH)
}

/// `Duration::as_secs`: the whole seconds. How many they are is left open.
pub assume_specification[ std::time::Duration::as_secs ](d: &std::time::Duration) -> u64;

/// `Instant::now`: a reading of the steady clock. Which instant it is, is left open.
pub assume_specification[ std::time::Instant::now ]() -> std::time::Instant;

/// `Instant::elapsed`: the time since the instant. How much has passed is left open.
pub assume_specification[ std::time::Instant::elapsed ](start: &std::time::Instant) -> std::time::Duration;

/// `Duration::as_nanos`: the whole time in nanoseconds, at most what a `Duration` holds,
/// `u64::MAX` seconds and 999 999 999 nanoseconds.
pub assume_specification[ std::time::Duration::as_nanos ](d: &std::time::Duration) -> (r: u128)
    ensures
        r <= 18_446_744_073_709_551_615_999_999_999,
;

/// The wall clock's whole seconds since the Unix epoch, 0 where it stands before it.
pub(crate) fn unix_seconds() -> u64 {
    match since_epoch(&std::time::SystemTime::now()) {
        Ok(d) => d.as_secs(),
        Err(_) => 0,
    }
}

/// A start for the steady clock.
pub(crate) fn start_clock() -> std::time::Instant {
    std::time::Instant::now()
}

/// How many nanoseconds have passed since `start`.
pub(crate) fn nanos_since(start: &std::time::Instant) -> (r: u128)
    ensures
        r <= 18_446_744_073_709_551_615_999_999_999,
{
    start.elapsed().as_nanos()
}

} // verus!
