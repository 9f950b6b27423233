//! The wall clock, in milliseconds.

use vstd::prelude::*;
use std::time::{Duration, SystemTime, SystemTimeError};

verus! {

/// A point in time of the system clock.
#[verifier::external_type_specification]
#[verifier::external_body]
pub struct ExSystemTime(SystemTime);

/// The failure to measure a span of time that would be negative.
#[verifier::external_type_specification]
#[verifier::external_body]
pub struct ExSystemTimeError(SystemTimeError);

/// `SystemTime::now` reads the system clock; nothing is known of what it returns.
pub assume_specification[ SystemTime::now ]() -> (now: SystemTime)
;

/// `SystemTime::duration_since` measures the span from `earlier` to `time`, and
/// fails where `earlier` is the later of the two. Nothing is claimed of the outcome.
pub assume_specification[ SystemTime::duration_since ](
    time: &SystemTime,
    earlier: SystemTime,
) -> (span: Result<Duration, SystemTimeError>)
;

/// `Duration::as_millis` gives the whole milliseconds of a span. Nothing is claimed
/// of the number.
pub assume_specification[ Duration::as_millis ](span: &Duration) -> (millis: u128)
;

/// The constant `std::time::UNIX_EPOCH`: the start of 1970 in universal time, from
/// which the clock is counted. Nothing is claimed of it.
#[verifier::external_body]
fn unix_epoch() -> (epoch: SystemTime) {
    std::time::UNIX_EPOCH
}

/// `SystemTimeError`'s `to_string`: the text of the failure to measure a span of
/// time. Nothing is claimed of it.
#[verifier::external_body]
fn span_error_text(error: &SystemTimeError) -> (text: String) {
    error.to_string()
}

/// Reads the wall clock: the milliseconds since the start of 1970, or the reason
/// why the clock could not be read.
pub(crate) fn now_ms() -> (now: Result<u64, String>) {
    let time = SystemTime::now();
    match time.duration_since(unix_epoch()) {
        Ok(span) => {
            let millis: u128 = span.as_millis();
            Ok((millis % 0x1_0000_0000_0000_0000) as u64)
        },
        Err(error) => Err(span_error_text(&error)),
    }
}

} // verus!
