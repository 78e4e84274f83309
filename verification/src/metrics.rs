//! What the quota of an account shows in metrics.
//!
//! The end of a window is shown as a point in time, not as the time that is
//! left: a gauge keeps its last value and does not count down.
use crate::ratelimit::Window;
use crate::ratelimit::WindowView;
use vstd::prelude::*;

pub mod laws;

verus! {

/// The labels of every gauge.
pub const LABELS: [&'static str; 2] = ["account", "window"];

/// The gauge of the share of a window that is used.
pub const USED_PERCENT: &'static str = "codex_subscription_used_percent";

/// The gauge of the length of a window.
pub const WINDOW_SECONDS: &'static str = "codex_subscription_window_seconds";

/// The gauge of the end of a window.
pub const RESET_TIMESTAMP_SECONDS: &'static str = "codex_subscription_reset_timestamp_seconds";

/// One value of a window.
#[derive(Debug)]
pub enum Reading {
    /// The share that is used, as the backend spells it.
    UsedPercent(String),
    WindowSeconds(i64),
    ResetTimestampSeconds(i64),
}

/// One value in mathematical form.
pub enum ReadingView {
    UsedPercent(Seq<char>),
    WindowSeconds(int),
    ResetTimestampSeconds(i64),
}

impl Reading {
    /// The value in mathematical form.
    pub open spec fn view(&self) -> ReadingView {
        match self {
            Reading::UsedPercent(t) => ReadingView::UsedPercent(t@),
            Reading::WindowSeconds(s) => ReadingView::WindowSeconds(*s as int),
            Reading::ResetTimestampSeconds(s) => ReadingView::ResetTimestampSeconds(*s),
        }
    }
}

/// Values in mathematical form.
pub open spec fn reading_views(v: Seq<Reading>) -> Seq<ReadingView> {
    v.map_values(|r: Reading| r@)
}

/// A number of minutes that is told in seconds: one whose seconds fit `i64`.
pub open spec fn length_fits(minutes: i64) -> bool {
    i64::MIN <= minutes * 60 <= i64::MAX
}

/// The values of a window, in the units of the gauges. What the window does
/// not tell has no value, and an absurd length has none either: a bad header
/// never fails a request.
pub open spec fn window_readings(w: WindowView) -> Seq<ReadingView> {
    seq![ReadingView::UsedPercent(w.used_percent)] + (match w.window_minutes {
        Some(m) => if length_fits(m) {
            seq![ReadingView::WindowSeconds(m * 60)]
        } else {
            Seq::empty()
        },
        None => Seq::empty(),
    }) + (match w.reset_at {
        Some(t) => seq![ReadingView::ResetTimestampSeconds(t)],
        None => Seq::empty(),
    })
}

/// The values of a window, in the units of the gauges.
pub fn observe_window(w: &Window) -> (r: Vec<Reading>)
    ensures
        reading_views(r@) == window_readings(w@),
{
    let mut out: Vec<Reading> = Vec::new();
    out.push(Reading::UsedPercent(w.used_percent.as_str().to_owned()));
    match w.window_minutes {
        Some(m) => match m.checked_mul(60) {
            Some(seconds) => {
                out.push(Reading::WindowSeconds(seconds));
            },
            None => {},
        },
        None => {},
    }
    match w.reset_at {
        Some(t) => {
            out.push(Reading::ResetTimestampSeconds(t));
        },
        None => {},
    }
    proof {
        assert(reading_views(out@) =~= window_readings(w@));
    }
    out
}

} // verus!
