//! How the units of time go together.
use crate::clock;
use std::time::SystemTime;
use vstd::prelude::*;

verus! {

/// A point in time is told in milliseconds, or in whole seconds of a thousand
/// milliseconds each; a point before the epoch is told as the epoch.
pub proof fn law_time_is_told(t: SystemTime)
    ensures
        clock::epoch_millis(t) is None ==> clock::millis(t) == 0 && clock::seconds(t) == 0,
        clock::epoch_millis(t) matches Some(m) ==> m <= i64::MAX ==> {
            &&& clock::millis(t) == m
            &&& 1000 * clock::seconds(t) <= m < 1000 * (clock::seconds(t) + 1)
        },
{
}

} // verus!
