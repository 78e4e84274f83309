use codex_proxy::bytes;
use codex_proxy::json;
use codex_proxy::json::Json;
use codex_proxy::sse::push_data_frame;
use codex_proxy::sse::SseEventReader;
use codex_proxy::text;

// ---- JSON ----

#[test]
fn values_survive_the_trip_through_the_library() {
    for t in [
        "null",
        "true",
        "-7",
        "18446744073709551615",
        "1.5",
        r#""a\n\u0001\"é""#,
        "[1,[2,[]],{}]",
        r#"{"a":{"b":[null,false]},"c":"d"}"#,
    ] {
        let v: serde_json::Value = serde_json::from_str(t).unwrap();
        let j = json::from_value(v.clone());
        assert_eq!(j.to_value(), v, "{t}");
        let again = match json::parse(j.to_text().as_bytes()) {
            Ok(j) => j,
            Err(e) => panic!("{e}"),
        };
        assert_eq!(again.to_value(), v, "{t}");
        assert!(j.to_text().bytes().all(|b| b >= 0x20), "{t}");
    }
}

#[test]
fn a_broken_text_is_an_error_with_the_message_of_the_parser() {
    let bad = b"{\"a\":";
    let want = serde_json::from_slice::<serde_json::Value>(bad)
        .unwrap_err()
        .to_string();
    match json::parse(bad) {
        Ok(_) => panic!("accepted"),
        Err(m) => assert_eq!(m, want),
    }
}

#[test]
fn members_are_written_in_the_order_asked_for() {
    let text = r#"{"a":[1,{"b":"x\u0001\"","a":null}],"c":{},"b":[],"d":-5}"#;
    let value = json::parse(text.as_bytes()).unwrap();
    assert_eq!(
        value.to_ordered_text(&vec!["d", "c", "b", "a"]),
        r#"{"d":-5,"c":{},"b":[],"a":[1,{"b":"x\u0001\"","a":null}]}"#
    );
    // What the order does not name is left out, at every depth.
    assert_eq!(value.to_ordered_text(&vec!["c", "a", "x"]), r#"{"c":{},"a":[1,{"a":null}]}"#);
    assert_eq!(value.to_ordered_text(&vec![]), "{}");
    assert_eq!(Json::text("a,b").to_ordered_text(&vec![]), r#""a,b""#);
    // With every key named, the text is read back as the value.
    let again = json::parse(value.to_ordered_text(&vec!["b", "d", "a", "c"]).as_bytes()).unwrap();
    assert_eq!(again.to_value(), value.to_value());
}

#[test]
fn values_are_read_as_texts_and_counts() {
    let read = |text: &str| json::parse(text.as_bytes()).unwrap();
    assert_eq!(read(r#""a""#).read_text(), Ok("a".to_string()));
    assert_eq!(
        read("null").read_text(),
        Err("invalid type: null, expected a string".to_string())
    );
    assert_eq!(read("null").read_unsigned(), Ok(None));
    assert_eq!(read("18446744073709551615").read_unsigned(), Ok(Some(u64::MAX)));
    assert_eq!(
        read("1.5").read_unsigned(),
        Err("invalid type: floating point `1.5`, expected u64".to_string())
    );
    assert_eq!(read("null").read_signed(), Ok(None));
    assert_eq!(read("-9223372036854775808").read_signed(), Ok(Some(i64::MIN)));
    assert_eq!(
        read("{}").read_signed(),
        Err("invalid type: map, expected i64".to_string())
    );
}

#[test]
fn members_are_read_by_type() {
    let j = json::parse(br#"{"s":"t","n":5,"b":true,"a":[1],"o":{},"z":null}"#).unwrap();
    assert_eq!(j.get_str("s"), Some("t"));
    assert_eq!(j.get_str("n"), None);
    assert_eq!(j.get_bool("b"), Some(true));
    assert_eq!(j.get_array("a").map(|a| a.len()), Some(1));
    assert!(j.get_object("o").is_some());
    assert!(j.get_object("a").is_none());
    assert!(j.get("z").is_some_and(|z| z.is_null()));
    assert!(j.get("missing").is_none());
}

#[test]
fn members_are_added_and_taken_out() {
    let j = Json::object()
        .with("a", Json::integer(-1))
        .with("a", Json::unsigned(2))
        .with("b", Json::single(Json::text("x")));
    assert_eq!(j.to_text(), r#"{"a":2,"b":["x"]}"#);
    assert_eq!(j.without("a").to_text(), r#"{"b":["x"]}"#);
    // The order in which members were added does not show.
    let j = Json::object().with("b", Json::Null).with("a", Json::Bool(true));
    assert_eq!(j.to_text(), r#"{"a":true,"b":null}"#);
}

// ---- text ----

#[test]
fn text_is_cut_as_by_the_standard_library() {
    for t in ["", "a", ",", "a,b", ",a,,b,", "é,ü", " a , b "] {
        let want: Vec<&str> = t.split(',').collect();
        assert_eq!(text::split_on(t, ','), want, "{t:?}");
        let once = text::split_once(t, ',');
        assert_eq!(
            once.as_ref().map(|(a, b)| (a.as_str(), b.as_str())),
            t.split_once(','),
            "{t:?}"
        );
        assert_eq!(text::trim_end_of(t, ','), t.trim_end_matches(','), "{t:?}");
        assert_eq!(text::trim(t), t.trim(), "{t:?}");
    }
    for t in ["\u{a0}x\u{3000}", "\u{85}\t x\r\n", "\u{200b}x", "\u{1680}\u{2028}"] {
        assert_eq!(text::trim(t), t.trim(), "{t:?}");
    }
}

#[test]
fn every_white_space_is_trimmed() {
    for n in 0..=0x10ffff_u32 {
        if let Some(c) = char::from_u32(n) {
            assert_eq!(text::char_is_space(c), c.is_whitespace(), "{n:x}");
        }
    }
}

#[test]
fn text_is_searched_as_by_the_standard_library() {
    for (t, p) in [("abcabc", "cab"), ("aaa", "aa"), ("abc", ""), ("", "a"), ("éü", "ü")] {
        assert_eq!(text::contains(t, p), t.contains(p));
        assert_eq!(text::starts_with(t, p), t.starts_with(p));
        assert_eq!(text::ends_with(t, p), t.ends_with(p));
        if !p.is_empty() {
            assert_eq!(text::replace(t, p, "-"), t.replace(p, "-"));
        }
    }
    assert_eq!(text::to_lower("ÄBC-É"), "ÄBC-É".to_ascii_lowercase());
    let parts = vec!["a".to_string(), "b".to_string()];
    assert_eq!(text::join(&parts, ", "), "a, b");
}

#[test]
fn numbers_are_written_in_decimal() {
    for n in [0, 7, 10, 999, u64::MAX] {
        assert_eq!(text::to_decimal(n), n.to_string());
    }
    for n in [0, -1, 42, i64::MAX, i64::MIN] {
        assert_eq!(text::to_signed_decimal(n), n.to_string());
    }
}

// ---- bytes ----

#[test]
fn bytes_are_searched() {
    assert!(bytes::contains(b"hello", b"ell"));
    assert!(bytes::contains(b"hello", b"hello"));
    assert!(bytes::contains(b"hello", b""));
    assert!(bytes::contains(b"", b""));
    assert!(!bytes::contains(b"hello", b"elo"));
    assert!(!bytes::contains(b"he", b"hello"));
    assert_eq!(bytes::trim_ascii(b" \t\x0c a b\r\n"), b"a b");
}

// ---- events ----

#[test]
fn a_frame_is_read_back() {
    for payload in [&b"x"[..], b"a\nb", b"{\"k\": 1}"] {
        let mut out = Vec::new();
        push_data_frame(&mut out, payload);
        let mut reader = SseEventReader::new();
        let events = reader.feed(&out);
        assert_eq!(events, vec![payload.to_vec()]);
        assert!(reader.finish().is_none());
    }
}

#[test]
fn an_event_without_its_blank_line_comes_at_the_end() {
    let mut reader = SseEventReader::new();
    assert!(reader.feed(b"data: a\ndata:b").is_empty());
    assert_eq!(reader.finish(), Some(b"a\nb".to_vec()));
}
