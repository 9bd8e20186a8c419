//! The present.

use vstd::prelude::*;

verus! {

#[verifier::external_type_specification]
#[verifier::external_body]
pub struct ExSystemTime(std::time::SystemTime);

#[verifier::external_type_specification]
#[verifier::external_body]
pub struct ExSystemTimeError(std::time::SystemTimeError);

/// `std::time::SystemTime::now`: the present. Nothing is promised of it.
#[verifier::external_body]
fn system_time() -> (t: std::time::SystemTime) {
    std::time::SystemTime::now()
}

/// `std::time::SystemTime::duration_since` the Unix epoch. Nothing is promised of it.
#[verifier::external_body]
fn since_epoch(t: std::time::SystemTime) -> (r: Result<
    std::time::Duration,
    std::time::SystemTimeError,
>) {
    t.duration_since(std::time::UNIX_EPOCH)
}

/// `std::time::Duration::as_secs`: the whole seconds. Nothing is promised of them.
#[verifier::external_body]
fn whole_secs(d: std::time::Duration) -> (n: u64) {
    d.as_secs()
}

/// A time in seconds after the Unix epoch; 0 where it lies before it, and there are none.
pub fn secs_or_zero(after_epoch: Option<u64>) -> (n: u64)
    ensures
        n == (match after_epoch {
            Some(secs) => secs,
            None => 0,
        }),
{
    match after_epoch {
        Some(secs) => secs,
        None => 0,
    }
}

/// The present in seconds after the Unix epoch; 0 where the clock stands before it.
/// `secs_or_zero` says what is returned for what the clock says, of which nothing is promised.
pub fn now_secs() -> (n: u64) {
    let after_epoch = match since_epoch(system_time()) {
        Ok(d) => Some(whole_secs(d)),
        Err(_) => None,
    };
    secs_or_zero(after_epoch)
}

} // verus!
