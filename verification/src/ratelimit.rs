//! The quota that the backend reports of an account.
//!
//! Its responses tell of two rolling windows, a short one and a long one. Only
//! the headers that are named here are read. What is missing or malformed is
//! left out: nothing depends on it.
use crate::headers;
use crate::headers::HeaderView;
use crate::headers::Headers;
use crate::text;
use vstd::prelude::*;

pub mod laws;

verus! {

/// One of the two windows.
#[derive(Debug, Clone, Copy, PartialEq, Eq, Structural)]
pub enum WindowKind {
    Primary,
    Secondary,
}

/// The name of a window.
pub open spec fn kind_label(kind: WindowKind) -> Seq<char> {
    match kind {
        WindowKind::Primary => "primary"@,
        WindowKind::Secondary => "secondary"@,
    }
}

impl WindowKind {
    /// The name of the window.
    pub fn label(self) -> (r: &'static str)
        ensures
            r@ == kind_label(self),
    {
        match self {
            WindowKind::Primary => "primary",
            WindowKind::Secondary => "secondary",
        }
    }

    /// The attribute of a trace for the share that is used.
    pub fn used_percent_attr(self) -> (r: &'static str)
        ensures
            r@ == (match self {
                WindowKind::Primary => "codex.subscription.primary.used_percent"@,
                WindowKind::Secondary => "codex.subscription.secondary.used_percent"@,
            }),
    {
        match self {
            WindowKind::Primary => "codex.subscription.primary.used_percent",
            WindowKind::Secondary => "codex.subscription.secondary.used_percent",
        }
    }

    /// The attribute of a trace for the length of the window.
    pub fn window_seconds_attr(self) -> (r: &'static str)
        ensures
            r@ == (match self {
                WindowKind::Primary => "codex.subscription.primary.window_seconds"@,
                WindowKind::Secondary => "codex.subscription.secondary.window_seconds"@,
            }),
    {
        match self {
            WindowKind::Primary => "codex.subscription.primary.window_seconds",
            WindowKind::Secondary => "codex.subscription.secondary.window_seconds",
        }
    }

    /// The attribute of a trace for the end of the window.
    pub fn reset_attr(self) -> (r: &'static str)
        ensures
            r@ == (match self {
                WindowKind::Primary => "codex.subscription.primary.reset_timestamp_seconds"@,
                WindowKind::Secondary => "codex.subscription.secondary.reset_timestamp_seconds"@,
            }),
    {
        match self {
            WindowKind::Primary => "codex.subscription.primary.reset_timestamp_seconds",
            WindowKind::Secondary => "codex.subscription.secondary.reset_timestamp_seconds",
        }
    }
}

/// The name of a header about a window.
pub open spec fn header_name(kind: WindowKind, what: Seq<char>) -> Seq<char> {
    "x-codex-"@ + kind_label(kind) + what
}

/// The name of a header about a window.
fn make_header_name(kind: WindowKind, what: &str) -> (r: String)
    ensures
        r@ == header_name(kind, what@),
{
    let mut out: String = "x-codex-".to_owned();
    out.append(kind.label());
    out.append(what);
    out
}

/// The text of a header about a window, without spaces around it.
pub open spec fn window_text(h: Seq<HeaderView>, kind: WindowKind, what: Seq<char>) -> Option<
    Seq<char>,
> {
    match headers::first_text(h, header_name(kind, what)) {
        Some(t) => Some(text::trimmed(t)),
        None => None,
    }
}

/// The number in a header about a window.
pub open spec fn window_number(h: Seq<HeaderView>, kind: WindowKind, what: Seq<char>) -> Option<
    i64,
> {
    match window_text(h, kind, what) {
        Some(t) => text::spelled_i64(t),
        None => None,
    }
}

/// The text of a header about a window.
fn read_text(h: &Headers, kind: WindowKind, what: &str) -> (r: Option<String>)
    ensures
        match r {
            Some(t) => window_text(h@, kind, what@) == Some(t@),
            None => window_text(h@, kind, what@) is None,
        },
{
    match h.get_str(make_header_name(kind, what).as_str()) {
        Some(t) => Some(text::trim(t.as_str())),
        None => None,
    }
}

/// The number in a header about a window.
fn parse_i64(h: &Headers, kind: WindowKind, what: &str) -> (r: Option<i64>)
    ensures
        r == window_number(h@, kind, what@),
{
    match read_text(h, kind, what) {
        Some(t) => text::parse_i64(t.as_str()),
        None => None,
    }
}

/// One window.
#[derive(Debug)]
pub struct Window {
    /// The share of the window that is used, from 0 to 100, as the backend
    /// spells it.
    pub used_percent: String,
    /// The length of the window in minutes.
    pub window_minutes: Option<i64>,
    /// When the window ends, in seconds since the Unix epoch.
    pub reset_at: Option<i64>,
}

/// One window in mathematical form.
pub struct WindowView {
    pub used_percent: Seq<char>,
    pub window_minutes: Option<i64>,
    pub reset_at: Option<i64>,
}

/// The window that headers tell of, given whether the share is spelled as a
/// finite number. The share is what makes a window; the rest may be missing.
pub open spec fn told_window(h: Seq<HeaderView>, kind: WindowKind, share_is_finite: bool)
    -> Option<WindowView> {
    match window_text(h, kind, "-used-percent"@) {
        Some(t) => if share_is_finite {
            Some(
                WindowView {
                    used_percent: t,
                    window_minutes: window_number(h, kind, "-window-minutes"@),
                    reset_at: window_number(h, kind, "-reset-at"@),
                },
            )
        } else {
            None
        },
        None => None,
    }
}

/// An optional window in mathematical form.
pub open spec fn optional_window(w: Option<Window>) -> Option<WindowView> {
    match w {
        Some(x) => Some(x@),
        None => None,
    }
}

impl Window {
    /// The window in mathematical form.
    pub open spec fn view(&self) -> WindowView {
        WindowView {
            used_percent: self.used_percent@,
            window_minutes: self.window_minutes,
            reset_at: self.reset_at,
        }
    }

    /// The share of a window as its header spells it.
    pub fn share(h: &Headers, kind: WindowKind) -> (r: Option<String>)
        ensures
            match r {
                Some(t) => window_text(h@, kind, "-used-percent"@) == Some(t@),
                None => window_text(h@, kind, "-used-percent"@) is None,
            },
    {
        read_text(h, kind, "-used-percent")
    }

    /// The window that headers tell of, given whether [`Window::share`] spells
    /// a finite number.
    pub fn from_headers(h: &Headers, kind: WindowKind, share_is_finite: bool) -> (r: Option<Self>)
        ensures
            optional_window(r) == told_window(h@, kind, share_is_finite),
    {
        match Window::share(h, kind) {
            Some(used_percent) => if share_is_finite {
                Some(
                    Window {
                        used_percent,
                        window_minutes: parse_i64(h, kind, "-window-minutes"),
                        reset_at: parse_i64(h, kind, "-reset-at"),
                    },
                )
            } else {
                None
            },
            None => None,
        }
    }
}

/// The two windows.
#[derive(Debug)]
pub struct RateLimits {
    pub primary: Option<Window>,
    pub secondary: Option<Window>,
}

impl RateLimits {
    /// The windows that headers tell of, given for each whether its share
    /// spells a finite number.
    pub fn from_headers(h: &Headers, primary_is_finite: bool, secondary_is_finite: bool) -> (r:
        Self)
        ensures
            optional_window(r.primary) == told_window(h@, WindowKind::Primary, primary_is_finite),
            optional_window(r.secondary) == told_window(
                h@,
                WindowKind::Secondary,
                secondary_is_finite,
            ),
    {
        RateLimits {
            primary: Window::from_headers(h, WindowKind::Primary, primary_is_finite),
            secondary: Window::from_headers(h, WindowKind::Secondary, secondary_is_finite),
        }
    }

    /// Whether there is nothing to tell.
    pub fn is_empty(&self) -> (r: bool)
        ensures
            r == (self.primary is None && self.secondary is None),
    {
        self.primary.is_none() && self.secondary.is_none()
    }
}

/// Headers that tell nothing of the share tell of no window, whatever else
/// they hold.
pub proof fn law_share_makes_the_window(h: Seq<HeaderView>, kind: WindowKind, finite: bool)
    requires
        headers::first_value(h, header_name(kind, "-used-percent"@)) is None,
    ensures
        told_window(h, kind, finite) is None,
{
}

/// Nothing but the three headers of a window is read: whatever else a response
/// holds does not show.
pub proof fn law_only_named_headers_are_read(
    a: Seq<HeaderView>,
    b: Seq<HeaderView>,
    kind: WindowKind,
    finite: bool,
)
    requires
        headers::first_value(a, header_name(kind, "-used-percent"@)) == headers::first_value(
            b,
            header_name(kind, "-used-percent"@),
        ),
        headers::first_value(a, header_name(kind, "-window-minutes"@)) == headers::first_value(
            b,
            header_name(kind, "-window-minutes"@),
        ),
        headers::first_value(a, header_name(kind, "-reset-at"@)) == headers::first_value(
            b,
            header_name(kind, "-reset-at"@),
        ),
    ensures
        told_window(a, kind, finite) == told_window(b, kind, finite),
{
}

} // verus!
