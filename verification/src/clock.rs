//! The timestamps that check-ins and ad views carry.

use vstd::prelude::*;
use std::time::{Duration, SystemTime, UNIX_EPOCH};

verus! {

/// A reading of the system clock, `std::time::SystemTime`. Nothing inside
/// it is visible to the proofs.
#[verifier::external_type_specification]
#[verifier::external_body]
pub struct ExSystemTime(SystemTime);

/// Reads the system clock with `std::time::SystemTime::now`. Nothing is
/// claimed of the reading.
#[verifier::external_body]
fn system_now() -> SystemTime {
    SystemTime::now()
}

/// The time from the Unix epoch to `time`, by
/// `std::time::SystemTime::duration_since`; `None` where `time` lies
/// before the epoch. Nothing is claimed of the result.
#[verifier::external_body]
fn since_epoch(time: &SystemTime) -> Option<Duration> {
    match time.duration_since(UNIX_EPOCH) {
        Ok(duration) => Some(duration),
        Err(_) => None,
    }
}

/// The whole seconds of `duration`, by `std::time::Duration::as_secs`.
/// Nothing is claimed of the result.
#[verifier::external_body]
fn whole_seconds(duration: &Duration) -> u64 {
    duration.as_secs()
}

/// The current time in whole seconds since the Unix epoch, or `None`
/// while the system clock stands before the epoch.
pub fn get_current_timestamp() -> Option<u64> {
    match since_epoch(&system_now()) {
        Some(duration) => Some(whole_seconds(&duration)),
        None => None,
    }
}

} // verus!
