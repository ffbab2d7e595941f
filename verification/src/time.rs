//! The wall-clock source: seconds since the UNIX epoch.

use vstd::prelude::*;

use std::time::{SystemTime, UNIX_EPOCH};

verus! {

/// Retrieves the current UNIX epoch time in seconds.
///
/// Relies on `std::time::SystemTime::now` and `duration_since`: seconds of
/// wall-clock time since the UNIX epoch, or nothing when the clock reads
/// before the epoch. Nothing further can be promised of a clock reading.
#[verifier::external_body]
pub fn unix_epoch_sec_now() -> (r: Option<u64>) {
    match SystemTime::now().duration_since(UNIX_EPOCH) {
        Ok(dur) => Some(dur.as_secs()),
        Err(_err) => None,
    }
}

} // verus!
