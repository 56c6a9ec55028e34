//! Reading the system clock.
//!
//! Token lifetimes are measured in whole seconds since the Unix epoch.  The
//! clock can be unavailable or sit before the epoch; both surface as an
//! error, never as a made-up timestamp.

use vstd::prelude::*;

verus! {

#[verifier::external_type_specification]
#[verifier::external_body]
pub struct ExSystemTime(std::time::SystemTime);

#[verifier::external_type_specification]
#[verifier::external_body]
pub struct ExSystemTimeError(std::time::SystemTimeError);

/// Relies on `std::time::SystemTime::now`: a reading of the system clock.
/// Nothing is promised of the value.
pub assume_specification[ std::time::SystemTime::now ]() -> std::time::SystemTime;

/// Relies on `std::time::SystemTime::duration_since`, applied to the Unix
/// epoch: the span from the epoch to this reading, or an error when the
/// reading lies before the epoch.
#[verifier::external_body]
pub(crate) fn duration_since_unix_epoch(
    t: std::time::SystemTime,
) -> Result<core::time::Duration, std::time::SystemTimeError> {
    t.duration_since(std::time::UNIX_EPOCH)
}

/// Relies on `core::time::Duration::as_secs`: the whole seconds of the span.
pub assume_specification[ core::time::Duration::as_secs ](d: &core::time::Duration) -> u64;

/// Reads the clock as whole seconds since the Unix epoch.  `None` means the
/// clock was unavailable or reported a time before the epoch.
pub fn now_unix_seconds() -> Option<u64> {
    match duration_since_unix_epoch(std::time::SystemTime::now()) {
        Ok(d) => Some(d.as_secs()),
        Err(_) => None,
    }
}

} // verus!
