//! What a window shows.
use super::ReadingView;
use crate::metrics;
use crate::ratelimit::WindowView;
use vstd::prelude::*;

verus! {

/// A window shows its share as it is told, its length in seconds and its end as
/// it is told, in this order; what is not told, and a length whose seconds are
/// out of range, is not shown.
pub proof fn law_window_is_shown(w: WindowView)
    ensures
        ({
            let r = metrics::window_readings(w);
            let length = w.window_minutes matches Some(m) && i64::MIN <= 60 * m <= i64::MAX;
            let n: int = if length {
                2
            } else {
                1
            };
            &&& r.len() == n + (if w.reset_at is Some {
                1int
            } else {
                0int
            })
            &&& r[0] == ReadingView::UsedPercent(w.used_percent)
            &&& length ==> r[1] == ReadingView::WindowSeconds(60 * w.window_minutes->0)
            &&& w.reset_at matches Some(t) ==> r[n] == ReadingView::ResetTimestampSeconds(t)
        }),
{
}

} // verus!
