//! The wall clock, read through `std::time`.

use vstd::prelude::*;

use std::time::{Duration, SystemTime};

verus! {

#[verifier::external_type_specification]
#[verifier::external_body]
pub struct ExSystemTime(SystemTime);

/// `SystemTime::now`: the current time. Nothing is known of it.
#[verifier::external_body]
fn system_time_now() -> SystemTime {
    SystemTime::now()
}

/// `SystemTime::duration_since(UNIX_EPOCH)`, `None` for a time before 1970.
/// Nothing is stated of the duration: it depends on the clock.
#[verifier::external_body]
fn since_unix_epoch(t: &SystemTime) -> Option<Duration> {
    t.duration_since(std::time::UNIX_EPOCH).ok()
}

/// `Duration::as_secs`: the whole seconds of a duration.
#[verifier::external_body]
fn whole_seconds(d: &Duration) -> u64 {
    d.as_secs()
}

/// Seconds since the Unix epoch, or 0 when the clock reads before 1970.
pub fn now_unix_secs() -> u64 {
    match since_unix_epoch(&system_time_now()) {
        Some(d) => whole_seconds(&d),
        None => 0,
    }
}

} // verus!
