//! The only unverified calls of the library: reading the wall clock.
//! Both results depend on the moment of the call, so neither contract
//! promises anything about the value; every function that consumes
//! one is verified for all values. Both bodies are total: a clock set
//! before the Unix epoch yields the epoch itself, never a panic.

use vstd::prelude::*;

verus! {

/// Relies on `std::time::SystemTime::now` and
/// `SystemTime::duration_since`: seconds since the Unix epoch, by the
/// wall clock; `0` when the clock stands before the epoch.
/// Clock-dependent, so nothing is promised of the value.
#[verifier::external_body]
pub(crate) fn epoch_now() -> i64 {
    match std::time::SystemTime::now().duration_since(std::time::UNIX_EPOCH) {
        Ok(d) => d.as_secs() as i64,
        Err(_) => 0,
    }
}

/// Relies on the same clock read plus `chrono::DateTime::from_timestamp`
/// and chrono's `format`: the current time as `"%Y-%m-%d %H:%M:%S"`
/// text, second precision, UTC; a fixed epoch string when the second
/// count falls outside chrono's range. Clock-dependent, so nothing is
/// promised of the value.
#[verifier::external_body]
pub(crate) fn timestamp_now() -> String {
    let secs: i64 = match std::time::SystemTime::now().duration_since(std::time::UNIX_EPOCH) {
        Ok(d) => d.as_secs() as i64,
        Err(_) => 0,
    };
    match chrono::DateTime::from_timestamp(secs, 0) {
        Some(dt) => dt.format("%Y-%m-%d %H:%M:%S").to_string(),
        None => String::from("1970-01-01 00:00:00"),
    }
}

} // verus!
