use codex_proxy::headers::Headers;
use codex_proxy::metrics::observe_window;
use codex_proxy::metrics::Reading;
use codex_proxy::ratelimit::RateLimits;
use codex_proxy::ratelimit::Window;
use codex_proxy::ratelimit::WindowKind;

fn headers(pairs: &[(&str, &str)]) -> Headers {
    let mut h = Headers::new();
    for (k, v) in pairs {
        h.append(k, v.as_bytes().to_vec());
    }
    h
}

/// Whether the share of a window spells a finite number.
fn is_finite(h: &Headers, kind: WindowKind) -> bool {
    Window::share(h, kind)
        .and_then(|t| t.parse::<f64>().ok())
        .is_some_and(|v| v.is_finite())
}

fn limits(pairs: &[(&str, &str)]) -> RateLimits {
    let h = headers(pairs);
    let primary = is_finite(&h, WindowKind::Primary);
    let secondary = is_finite(&h, WindowKind::Secondary);
    RateLimits::from_headers(&h, primary, secondary)
}

fn parts(w: &Option<Window>) -> Option<(f64, Option<i64>, Option<i64>)> {
    w.as_ref().map(|w| {
        (
            w.used_percent.parse::<f64>().unwrap(),
            w.window_minutes,
            w.reset_at,
        )
    })
}

#[test]
fn parses_both_windows() {
    let limits = limits(&[
        ("x-codex-primary-used-percent", "12.5"),
        ("x-codex-primary-window-minutes", "300"),
        ("x-codex-primary-reset-at", "1704069000"),
        ("x-codex-secondary-used-percent", "73"),
        ("x-codex-secondary-window-minutes", "10080"),
        ("x-codex-secondary-reset-at", "1704669000"),
    ]);
    assert_eq!(
        parts(&limits.primary),
        Some((12.5, Some(300), Some(1704069000)))
    );
    assert_eq!(
        parts(&limits.secondary),
        Some((73.0, Some(10080), Some(1704669000)))
    );
    assert!(!limits.is_empty());
}

#[test]
fn absent_headers_yield_empty() {
    let limits = limits(&[]);
    assert!(limits.is_empty());
    assert!(limits.primary.is_none());
    assert!(limits.secondary.is_none());
}

#[test]
fn used_percent_is_the_anchor() {
    // window/reset present but no used-percent: no window.
    let limits = limits(&[
        ("x-codex-primary-window-minutes", "300"),
        ("x-codex-primary-reset-at", "1704069000"),
    ]);
    assert!(limits.primary.is_none());
}

#[test]
fn used_percent_alone_is_enough() {
    let limits = limits(&[("x-codex-primary-used-percent", "5.0")]);
    assert_eq!(parts(&limits.primary), Some((5.0, None, None)));
}

#[test]
fn non_finite_and_garbage_are_dropped() {
    for bad in ["NaN", "inf", "-inf", "", "abc", "  "] {
        let limits = limits(&[("x-codex-primary-used-percent", bad)]);
        assert!(limits.primary.is_none(), "{bad:?} should not parse");
    }
    // A garbage window-minutes does not sink the window; used-percent holds.
    let limits = limits(&[
        ("x-codex-primary-used-percent", "10"),
        ("x-codex-primary-window-minutes", "soon"),
    ]);
    assert_eq!(limits.primary.map(|w| w.window_minutes), Some(None));
}

#[test]
fn numbers_are_whole_and_of_64_bits() {
    for (text, want) in [
        ("5", Some(5)),
        (" +5 ", Some(5)),
        ("-5", Some(-5)),
        ("007", Some(7)),
        ("9223372036854775807", Some(i64::MAX)),
        ("9223372036854775808", None),
        ("-9223372036854775808", Some(i64::MIN)),
        ("-9223372036854775809", None),
        ("99999999999999999999999999999999999999999999", None),
        ("", None),
        ("-", None),
        ("+", None),
        ("+-1", None),
        ("1.0", None),
        ("1 2", None),
    ] {
        let limits = limits(&[
            ("x-codex-secondary-used-percent", "1"),
            ("x-codex-secondary-reset-at", text),
        ]);
        assert_eq!(limits.secondary.unwrap().reset_at, want, "{text:?}");
        assert_eq!(text.trim().parse::<i64>().ok(), want, "{text:?}");
    }
}

// ---- what is shown ----

#[test]
fn readings_are_in_the_units_of_the_gauges() {
    let limits = limits(&[
        ("x-codex-primary-used-percent", "12.5"),
        ("x-codex-primary-window-minutes", "300"),
        ("x-codex-primary-reset-at", "1704069000"),
    ]);
    let r = observe_window(&limits.primary.unwrap());
    assert_eq!(r.len(), 3);
    assert!(matches!(&r[0], Reading::UsedPercent(t) if t == "12.5"));
    // 300 minutes are 18000 seconds.
    assert!(matches!(r[1], Reading::WindowSeconds(18000)));
    assert!(matches!(r[2], Reading::ResetTimestampSeconds(1704069000)));
}

#[test]
fn a_partial_window_has_only_what_it_tells() {
    let limits = limits(&[("x-codex-secondary-used-percent", "73")]);
    let r = observe_window(&limits.secondary.unwrap());
    assert_eq!(r.len(), 1);
    assert!(matches!(&r[0], Reading::UsedPercent(t) if t == "73"));
}

#[test]
fn an_absurd_length_is_not_told() {
    let limits = limits(&[
        ("x-codex-primary-used-percent", "1"),
        ("x-codex-primary-window-minutes", "9223372036854775807"),
        ("x-codex-primary-reset-at", "5"),
    ]);
    let r = observe_window(&limits.primary.unwrap());
    assert_eq!(r.len(), 2);
    assert!(matches!(r[1], Reading::ResetTimestampSeconds(5)));
}

#[test]
fn windows_have_names() {
    assert_eq!(WindowKind::Primary.label(), "primary");
    assert_eq!(WindowKind::Secondary.label(), "secondary");
    assert_eq!(
        WindowKind::Primary.used_percent_attr(),
        "codex.subscription.primary.used_percent"
    );
    assert_eq!(
        WindowKind::Secondary.window_seconds_attr(),
        "codex.subscription.secondary.window_seconds"
    );
    assert_eq!(
        WindowKind::Secondary.reset_attr(),
        "codex.subscription.secondary.reset_timestamp_seconds"
    );
}
