//! Which headers tell of the quota.
use super::WindowKind;
use crate::headers;
use crate::headers::HeaderView;
use crate::ratelimit;
use crate::text;
use vstd::prelude::*;

verus! {

/// The three headers of a window: of its share, its length and its end.
pub open spec fn share_header(kind: WindowKind) -> Seq<char> {
    match kind {
        WindowKind::Primary => "x-codex-primary-used-percent"@,
        WindowKind::Secondary => "x-codex-secondary-used-percent"@,
    }
}

pub open spec fn length_header(kind: WindowKind) -> Seq<char> {
    match kind {
        WindowKind::Primary => "x-codex-primary-window-minutes"@,
        WindowKind::Secondary => "x-codex-secondary-window-minutes"@,
    }
}

pub open spec fn end_header(kind: WindowKind) -> Seq<char> {
    match kind {
        WindowKind::Primary => "x-codex-primary-reset-at"@,
        WindowKind::Secondary => "x-codex-secondary-reset-at"@,
    }
}

/// The whole number in a header.
pub open spec fn number_in(h: Seq<HeaderView>, name: Seq<char>) -> Option<i64> {
    match headers::first_text(h, name) {
        Some(t) => text::spelled_i64(text::trimmed(t)),
        None => None,
    }
}

/// The names of the headers.
proof fn lemma_names(kind: WindowKind)
    ensures
        ratelimit::header_name(kind, "-used-percent"@) == share_header(kind),
        ratelimit::header_name(kind, "-window-minutes"@) == length_header(kind),
        ratelimit::header_name(kind, "-reset-at"@) == end_header(kind),
{
    reveal_strlit("x-codex-");
    reveal_strlit("primary");
    reveal_strlit("secondary");
    reveal_strlit("-used-percent");
    reveal_strlit("-window-minutes");
    reveal_strlit("-reset-at");
    reveal_strlit("x-codex-primary-used-percent");
    reveal_strlit("x-codex-secondary-used-percent");
    reveal_strlit("x-codex-primary-window-minutes");
    reveal_strlit("x-codex-secondary-window-minutes");
    reveal_strlit("x-codex-primary-reset-at");
    reveal_strlit("x-codex-secondary-reset-at");
    assert(ratelimit::header_name(kind, "-used-percent"@) =~= share_header(kind));
    assert(ratelimit::header_name(kind, "-window-minutes"@) =~= length_header(kind));
    assert(ratelimit::header_name(kind, "-reset-at"@) =~= end_header(kind));
}

/// A window is told where its share is, as a finite number; its length and its
/// end are told where their headers hold whole numbers.
pub proof fn law_window_is_told(h: Seq<HeaderView>, kind: WindowKind, finite: bool)
    ensures
        ratelimit::told_window(h, kind, finite) is Some <==> finite && headers::first_text(
            h,
            share_header(kind),
        ) is Some,
        ratelimit::told_window(h, kind, finite) matches Some(w) ==> {
            &&& w.used_percent == text::trimmed(headers::first_text(h, share_header(kind))->0)
            &&& w.window_minutes == number_in(h, length_header(kind))
            &&& w.reset_at == number_in(h, end_header(kind))
        },
{
    lemma_names(kind);
}

} // verus!
