//! Wall-clock time, in whole seconds since the Unix epoch.

use std::time::{Duration, SystemTime, SystemTimeError, UNIX_EPOCH};

use vstd::prelude::*;

verus! {

/// `std::time::SystemTime` is carried through as an opaque value.
#[verifier::external_type_specification]
#[verifier::external_body]
pub struct ExSystemTime(SystemTime);

/// `std::time::SystemTimeError` is carried through as an opaque value.
#[verifier::external_type_specification]
#[verifier::external_body]
pub struct ExSystemTimeError(SystemTimeError);

/// Calls `SystemTime::now`. The clock is read; nothing is stated of it.
#[verifier::external_body]
fn system_now() -> (now: SystemTime) {
    SystemTime::now()
}

/// Calls `SystemTime::duration_since` with `UNIX_EPOCH`: the time elapsed
/// since the epoch, or an error when `t` lies before it. Nothing is stated,
/// as both values are opaque here.
#[verifier::external_body]
fn since_unix_epoch(t: &SystemTime) -> (elapsed: Result<Duration, SystemTimeError>) {
    t.duration_since(UNIX_EPOCH)
}

/// Calls `Duration::as_secs`, the whole seconds of `d`. Nothing is stated,
/// as `Duration` is opaque here.
#[verifier::external_body]
fn whole_seconds(d: &Duration) -> (secs: u64) {
    d.as_secs()
}

/// The timestamp for a reading of the clock: its whole seconds since the
/// Unix epoch, or 0 when the clock reads a time before the epoch.
pub fn timestamp_or_zero(since_epoch: Option<u64>) -> (timestamp: u64)
    ensures
        timestamp == match since_epoch {
            Some(secs) => secs,
            None => 0,
        },
{
    match since_epoch {
        Some(secs) => secs,
        None => 0,
    }
}

/// The current time in whole seconds since the Unix epoch, 0 when the clock
/// reads a time before the epoch. The clock decides the value; nothing more
/// is stated.
pub fn get_timestamp() -> (timestamp: u64) {
    let now = system_now();
    let since_epoch = match since_unix_epoch(&now) {
        Ok(elapsed) => Some(whole_seconds(&elapsed)),
        Err(_) => None,
    };
    timestamp_or_zero(since_epoch)
}

} // verus!
