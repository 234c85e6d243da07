//! Readings of the system clocks, whose results depend on when they are taken
//! (so nothing is promised of them), and spans of time.

use vstd::prelude::*;

verus! {

#[verifier::external_type_specification]
#[verifier::external_body]
pub struct ExInstant(std::time::Instant);

#[verifier::external_type_specification]
#[verifier::external_body]
pub struct ExSystemTime(std::time::SystemTime);

#[verifier::external_type_specification]
#[verifier::external_body]
pub struct ExSystemTimeError(std::time::SystemTimeError);

/// Calls `Instant::now`: a reading of the monotonic clock.
#[verifier::external_body]
pub(crate) fn instant_now() -> (r: std::time::Instant) {
    std::time::Instant::now()
}

/// Calls `Instant::elapsed`: the time since `created`, as the monotonic
/// clock reads now.
#[verifier::external_body]
pub(crate) fn elapsed(created: &std::time::Instant) -> (r: std::time::Duration) {
    created.elapsed()
}

/// Calls `Duration::as_secs`: the whole seconds of a span.
#[verifier::external_body]
pub(crate) fn whole_secs(d: &std::time::Duration) -> (r: u64) {
    d.as_secs()
}

/// Calls `SystemTime::now`: a reading of the wall clock.
#[verifier::external_body]
pub(crate) fn system_now() -> (r: std::time::SystemTime) {
    std::time::SystemTime::now()
}

/// Calls `SystemTime::duration_since` with the Unix epoch: the time since the
/// epoch, or an error for a reading before it.
#[verifier::external_body]
pub(crate) fn since_unix_epoch(t: &std::time::SystemTime) -> (r: Result<std::time::Duration, std::time::SystemTimeError>) {
    t.duration_since(std::time::UNIX_EPOCH)
}

/// Calls `Duration::as_millis`: the whole milliseconds of a span.
#[verifier::external_body]
pub(crate) fn whole_millis(d: &std::time::Duration) -> (r: u128) {
    d.as_millis()
}

/// The whole milliseconds since the Unix epoch by the wall clock, truncated
/// to 64 bits, or 0 when the clock reads before the epoch.
pub(crate) fn unix_millis() -> (r: u64) {
    match since_unix_epoch(&system_now()) {
        Ok(d) => whole_millis(&d) as u64,
        Err(_) => 0,
    }
}

/// The span of `secs` whole seconds.
pub uninterp spec fn seconds(secs: u64) -> std::time::Duration;

/// The span of `ms` milliseconds.
pub uninterp spec fn milliseconds(ms: u64) -> std::time::Duration;

/// Calls `Duration::from_secs`.
#[verifier::external_body]
pub(crate) fn duration_from_secs(secs: u64) -> (r: std::time::Duration)
    ensures
        r == seconds(secs),
{
    std::time::Duration::from_secs(secs)
}

/// Calls `Duration::from_millis`.
#[verifier::external_body]
pub(crate) fn duration_from_millis(ms: u64) -> (r: std::time::Duration)
    ensures
        r == milliseconds(ms),
{
    std::time::Duration::from_millis(ms)
}

} // verus!
