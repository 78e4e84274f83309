//! The system clock.
use std::time::{Duration, SystemTime, SystemTimeError};
use vstd::prelude::*;

pub mod laws;

verus! {

/// `std::time::SystemTime`.
#[verifier::external_type_specification]
#[verifier::external_body]
pub struct ExSystemTime(SystemTime);

/// `std::time::SystemTimeError`.
#[verifier::external_type_specification]
#[verifier::external_body]
pub struct ExSystemTimeError(SystemTimeError);

/// The whole milliseconds of a duration, as `Duration::as_millis` gives them.
pub uninterp spec fn duration_millis(d: Duration) -> u128;

/// The whole milliseconds from the Unix epoch to a point in time; `None` for a
/// point before it.
pub uninterp spec fn epoch_millis(t: SystemTime) -> Option<u128>;

/// `SystemTime::now`: the present, of which nothing can be said.
pub assume_specification[ SystemTime::now ]() -> SystemTime
;

/// `Duration::as_millis`: the whole milliseconds of the duration.
pub assume_specification[ Duration::as_millis ](d: &Duration) -> (r: u128)
    ensures
        r == duration_millis(*d),
;

/// `SystemTime::duration_since` the Unix epoch: the time that passed since, or
/// an error for a point before it.
#[verifier::external_body]
fn since_epoch(t: SystemTime) -> (r: Result<Duration, SystemTimeError>)
    ensures
        match r {
            Ok(d) => epoch_millis(t) == Some(duration_millis(d)),
            Err(_) => epoch_millis(t) is None,
        },
{
    t.duration_since(std::time::UNIX_EPOCH)
}

/// A point in time as milliseconds since the Unix epoch, in the low 64 bits of
/// their number; zero before it.
pub open spec fn millis(t: SystemTime) -> i64 {
    match epoch_millis(t) {
        Some(m) => m as i64,
        None => 0,
    }
}

/// The present as milliseconds since the Unix epoch.
pub fn now_ms() -> (r: i64)
    ensures
        exists|t: SystemTime| r == #[trigger] millis(t),
{
    let t: SystemTime = SystemTime::now();
    let r: i64 = match since_epoch(t) {
        Ok(d) => #[verifier::truncate] (d.as_millis() as i64),
        Err(_) => 0,
    };
    proof {
        assert(r == millis(t));
    }
    r
}

/// A point in time as whole seconds since the Unix epoch, in the low 64 bits of
/// their number; zero before it.
pub open spec fn seconds(t: SystemTime) -> i64 {
    match epoch_millis(t) {
        Some(m) => (m / 1000) as i64,
        None => 0,
    }
}

/// The present as whole seconds since the Unix epoch.
pub fn now_secs() -> (r: i64)
    ensures
        exists|t: SystemTime| r == #[trigger] seconds(t),
{
    let t: SystemTime = SystemTime::now();
    let r: i64 = match since_epoch(t) {
        Ok(d) => #[verifier::truncate] ((d.as_millis() / 1000) as i64),
        Err(_) => 0,
    };
    proof {
        assert(r == seconds(t));
    }
    r
}

} // verus!
