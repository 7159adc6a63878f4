use std::time::{Duration, SystemTime, UNIX_EPOCH};
use vstd::prelude::*;

verus! {

#[verifier::external_type_specification]
#[verifier::external_body]
pub struct ExSystemTime(SystemTime);

/// Relies on `std::time::SystemTime::now`: reads the system clock. Nothing is
/// promised of the value read.
#[verifier::external_body]
fn system_now() -> (r: SystemTime) {
    SystemTime::now()
}

/// Relies on `std::time::SystemTime::duration_since`, measured from
/// `UNIX_EPOCH`: `None` where the clock reads earlier than the epoch.
#[verifier::external_body]
fn since_epoch(t: &SystemTime) -> (r: Option<Duration>) {
    t.duration_since(UNIX_EPOCH).ok()
}

/// Relies on `std::time::Duration::as_secs`: the whole seconds of `d`.
#[verifier::external_body]
fn whole_secs(d: &Duration) -> (r: u64) {
    d.as_secs()
}

/// Seconds since the Unix epoch by the system clock; a clock set before the
/// epoch reads as 0.
pub fn unix_now_secs() -> (r: u64) {
    let now = system_now();
    match since_epoch(&now) {
        Some(d) => whole_secs(&d),
        None => 0,
    }
}

} // verus!
