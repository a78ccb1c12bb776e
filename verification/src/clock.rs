//! The time of day, in whole seconds.
use core::time::Duration;
use std::time::SystemTimeError;
use vstd::prelude::*;

verus! {

/// Makes `std::time::SystemTimeError` known as a type whose values are only
/// passed on: nothing is read from them.
#[verifier::external_type_specification]
#[verifier::external_body]
pub struct ExSystemTimeError(std::time::SystemTimeError);

/// Asks `SystemTime::elapsed` of `std::time::UNIX_EPOCH`: the time that has
/// passed since the start of 1970, or the error that std gives when the
/// machine's clock stands before it. Nothing is claimed of the outcome: it
/// differs from call to call.
#[verifier::external_body]
fn elapsed_since_epoch() -> (elapsed: Result<Duration, SystemTimeError>) {
    std::time::UNIX_EPOCH.elapsed()
}

/// The whole seconds of a duration, as `Duration::as_secs` gives them.
/// Nothing is claimed of the number.
#[verifier::external_body]
fn whole_seconds(elapsed: &Duration) -> (seconds: u64) {
    elapsed.as_secs()
}

/// The seconds since the start of 1970 on the machine's clock. There is no
/// time if the clock stands before 1970, or so far after it that the seconds
/// do not fit the type of a timestamp.
pub fn unix_time_now() -> (now: Option<i64>)
    ensures
        now matches Some(seconds) ==> seconds >= 0,
{
    match elapsed_since_epoch() {
        Ok(elapsed) => {
            let seconds: u64 = whole_seconds(&elapsed);
            if seconds <= 0x7fff_ffff_ffff_ffff {
                Some(seconds as i64)
            } else {
                None
            }
        },
        Err(_) => None,
    }
}

} // verus!
