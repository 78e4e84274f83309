use codex_proxy::relay::pass_through_sse_stream;
use codex_proxy::relay::ping_frame;
use codex_proxy::relay::rewrite_sse_stream;
use codex_proxy::relay::rewrite_sse_stream_with_callback;
use codex_proxy::relay::PassThroughRelay;
use codex_proxy::relay::RelayConfig;
use codex_proxy::relay::RelayError;
use codex_proxy::relay::RewriteRelay;
use codex_proxy::sse::SseEventReader;
use codex_proxy::transform::TransformResult;
use serde_json::Value;

fn run_rewrite(input: &[u8]) -> (String, Result<(), RelayError>) {
    let (output, result) = rewrite_sse_stream(input, "gpt-5");
    (String::from_utf8(output).expect("valid utf8"), result)
}

fn run_pass_through(input: &[u8]) -> String {
    String::from_utf8(pass_through_sse_stream(input)).expect("valid utf8")
}

/// The frames of an output.
fn frames(output: &str) -> Vec<&str> {
    output.split("\n\n").filter(|f| !f.is_empty()).collect()
}

/// The JSON payload of a `data: ` frame.
fn frame_json(frame: &str) -> Value {
    let payload = frame.strip_prefix("data: ").expect("data frame");
    serde_json::from_str(payload).expect("valid json frame")
}

const CREATED: &str =
    r#"{"type":"response.created","sequence_number":0,"response":{"id":"resp_123"}}"#;
const TEXT_DELTA: &str = r#"{"type":"response.output_text.delta","sequence_number":80,"item_id":"msg_123","output_index":1,"content_index":0,"delta":"Hello"}"#;
const COMPLETED: &str = r#"{"type":"response.completed","sequence_number":99,"response":{"usage":{"input_tokens":10,"output_tokens":5,"total_tokens":15}}}"#;

fn sse(events: &[&str]) -> Vec<u8> {
    let mut out = Vec::new();
    for event in events {
        out.extend_from_slice(b"data: ");
        out.extend_from_slice(event.as_bytes());
        out.extend_from_slice(b"\n\n");
    }
    out
}

// ---- rewriting: frames and the end ----

#[test]
fn rewrite_happy_path_ends_with_done_sentinel() {
    let input = sse(&[CREATED, TEXT_DELTA, COMPLETED, "[DONE]"]);
    let (output, result) = run_rewrite(&input);
    assert!(result.is_ok());
    let frames = frames(&output);
    assert_eq!(*frames.last().unwrap(), "data: [DONE]");
    let role = frame_json(frames[0]);
    assert_eq!(role["choices"][0]["delta"]["role"], "assistant");
    assert_eq!(role["id"], "chatcmpl-resp_123");
    let content = frame_json(frames[1]);
    assert_eq!(content["choices"][0]["delta"]["content"], "Hello");
    assert_eq!(content["object"], "chat.completion.chunk");
}

#[test]
fn rewrite_appends_done_when_upstream_ends_without_sentinel() {
    let input = sse(&[CREATED, TEXT_DELTA]);
    let (output, result) = run_rewrite(&input);
    assert!(result.is_ok());
    assert!(output.ends_with("data: [DONE]\n\n"), "output: {output}");
}

#[test]
fn rewrite_emits_done_for_empty_upstream() {
    let (output, result) = run_rewrite(b"");
    assert!(result.is_ok());
    assert_eq!(output, "data: [DONE]\n\n");
}

#[test]
fn rewrite_invalid_json_emits_error_event_then_done() {
    let input = b"data: {not json\n\n";
    let (output, result) = run_rewrite(input);
    assert!(matches!(result, Err(RelayError::Transform(_))));
    let frames = frames(&output);
    assert_eq!(frames.len(), 2);
    let error = frame_json(frames[0]);
    let message = error["error"].as_str().expect("error message");
    assert!(message.starts_with("stream error: "), "message: {message}");
    assert_eq!(frames[1], "data: [DONE]");
}

#[test]
fn rewrite_stops_after_upstream_done() {
    let input = sse(&[CREATED, "[DONE]", TEXT_DELTA]);
    let (output, result) = run_rewrite(&input);
    assert!(result.is_ok());
    assert_eq!(output, "data: [DONE]\n\n");
}

// ---- rewriting: chunks that are chunks already ----

#[test]
fn rewrite_passes_through_openai_chunks_unchanged() {
    let chunk = r#"{"object":"chat.completion.chunk","id":"chatcmpl-x","choices":[]}"#;
    let input = sse(&[chunk]);
    let (output, result) = run_rewrite(&input);
    assert!(result.is_ok());
    let frames = frames(&output);
    assert_eq!(frames.len(), 2);
    assert_eq!(frames[0], format!("data: {chunk}"));
    assert_eq!(frames[1], "data: [DONE]");
}

#[test]
fn rewrite_ignores_typeless_non_chunk_json() {
    let input = sse(&[r#"{"object":"something.else","x":1}"#]);
    let (output, result) = run_rewrite(&input);
    assert!(result.is_ok());
    assert_eq!(output, "data: [DONE]\n\n");
}

// ---- rewriting: the edges of the framing ----

#[test]
fn rewrite_handles_crlf_comments_and_multiline_data() {
    let mut input = Vec::new();
    input.extend_from_slice(b": upstream comment\r\n");
    input.extend_from_slice(b"data: {\"type\":\"response.created\",\r\n");
    input.extend_from_slice(b"data: \"response\":{\"id\":\"resp_9\"}}\r\n");
    input.extend_from_slice(b"\r\n");
    input.extend_from_slice(b"data: [DONE]\r\n\r\n");
    let (output, result) = run_rewrite(&input);
    assert!(result.is_ok());
    assert_eq!(output, "data: [DONE]\n\n");
}

#[test]
fn rewrite_flushes_trailing_event_without_blank_line() {
    let (output, result) = run_rewrite(b"data: [DONE]");
    assert!(result.is_ok());
    assert_eq!(output, "data: [DONE]\n\n");
}

#[test]
fn rewrite_has_no_token_size_cap() {
    let big = "x".repeat(11 * 1024 * 1024);
    let event =
        format!(r#"{{"type":"response.output_text.delta","sequence_number":1,"delta":"{big}"}}"#);
    let input = sse(&[CREATED, &event, "[DONE]"]);
    let (output, result) = run_rewrite(&input);
    assert!(result.is_ok());
    assert!(output.contains(&big));
    assert!(output.ends_with("data: [DONE]\n\n"));
}

// ---- rewriting: what was seen ----

#[test]
fn rewrite_callback_observes_each_event() {
    let input = sse(&[CREATED, TEXT_DELTA, "[DONE]"]);
    let (output, result, seen) = rewrite_sse_stream_with_callback(&input, "gpt-5");
    assert!(result.is_ok());
    let kinds: Vec<&str> = seen
        .iter()
        .map(|s| match s.result {
            TransformResult::Emitted(_) => "emitted",
            TransformResult::Swallowed => "swallowed",
            TransformResult::Done => "done",
        })
        .collect();
    assert_eq!(kinds, vec!["swallowed", "emitted", "done"]);
    assert_eq!(seen[0].event, CREATED.as_bytes());
    // The frames that were emitted are those that were sent.
    let sent = frames(std::str::from_utf8(&output).unwrap());
    match &seen[1].result {
        TransformResult::Emitted(emitted) => {
            assert_eq!(emitted.len(), 2);
            for (frame, line) in emitted.iter().zip(&sent) {
                let text = std::str::from_utf8(frame).unwrap();
                assert_eq!(format!("data: {text}"), *line);
            }
        }
        _ => panic!("nothing emitted"),
    }
}

// ---- rewriting: pings ----

#[test]
fn rewrite_emits_keepalive_when_upstream_is_silent() {
    let config = RelayConfig {
        keepalive_interval: 15_000,
    };
    // Idle for the whole interval: the wait is over and a ping is due.
    assert_eq!(config.wait_before_ping(15_000), Some(0));
    assert_eq!(config.wait_before_ping(16_000), Some(0));
    assert_eq!(config.wait_before_ping(5_000), Some(10_000));
    assert_eq!(ping_frame(), b": ping\n\n");
    // The stream still ends with the sentinel.
    let mut relay = RewriteRelay::new("gpt-5");
    let out = relay.feed(b"data: [DONE]\n\n");
    assert_eq!(out.bytes, b"data: [DONE]\n\n");
    assert_eq!(relay.finish().bytes, b"");
}

#[test]
fn rewrite_does_not_keepalive_while_actively_streaming() {
    let input = sse(&[CREATED, TEXT_DELTA, COMPLETED, "[DONE]"]);
    let (output, result) = run_rewrite(&input);
    assert!(result.is_ok());
    assert!(!output.contains(": ping"), "output: {output}");
}

#[test]
fn zero_keepalive_interval_disables_pings_without_busy_looping() {
    let config = RelayConfig {
        keepalive_interval: 0,
    };
    assert_eq!(config.wait_before_ping(0), None);
    assert_eq!(config.wait_before_ping(1_000_000), None);
    assert_eq!(RelayConfig::default().keepalive_interval, 15_000);
    // Nothing but the sentinel is written.
    let (output, result) = run_rewrite(b"data: [DONE]\n\n");
    assert_eq!(output, "data: [DONE]\n\n");
    assert!(!output.contains(": ping"));
    assert!(result.is_ok());
}

#[test]
fn a_ping_is_no_event() {
    let mut reader = SseEventReader::new();
    assert!(reader.feed(&ping_frame()).is_empty());
    assert!(reader.finish().is_none());
}

// ---- passing on ----

#[test]
fn pass_through_copies_events_verbatim() {
    let input = sse(&[CREATED, COMPLETED]);
    let output = run_pass_through(&input);
    let frames = frames(&output);
    assert_eq!(frames.len(), 2);
    assert_eq!(frames[0], format!("data: {CREATED}"));
    assert_eq!(frames[1], format!("data: {COMPLETED}"));
}

#[test]
fn pass_through_relays_done_but_does_not_inject_it() {
    let output = run_pass_through(&sse(&[CREATED]));
    assert!(!output.contains("[DONE]"), "output: {output}");
    let output = run_pass_through(&sse(&[CREATED, "[DONE]"]));
    assert!(output.ends_with("data: [DONE]\n\n"), "output: {output}");
}

#[test]
fn pass_through_reconstructs_multiline_events_with_per_line_data_prefix() {
    let output = run_pass_through(b"data: first\ndata: second\n\n");
    assert_eq!(output, "data: first\ndata: second\n\n");
}

#[test]
fn pass_through_emits_keepalive_when_upstream_is_silent() {
    assert_eq!(RelayConfig::default().wait_before_ping(15_000), Some(0));
    assert_eq!(ping_frame(), b": ping\n\n");
    let mut relay = PassThroughRelay::new();
    assert_eq!(relay.feed(b""), b"");
    assert_eq!(relay.finish(), b"");
}

// ---- pieces and failures ----

#[test]
fn pieces_make_no_difference() {
    let input = sse(&[CREATED, TEXT_DELTA, COMPLETED, "[DONE]"]);
    let (whole, _) = run_rewrite(&input);
    for size in [1, 2, 7, 64] {
        let mut relay = RewriteRelay::new("gpt-5");
        let mut out = Vec::new();
        for piece in input.chunks(size) {
            out.extend(relay.feed(piece).bytes);
        }
        out.extend(relay.finish().bytes);
        assert_eq!(String::from_utf8(out).unwrap(), whole, "size {size}");

        let mut relay = PassThroughRelay::new();
        let mut out = Vec::new();
        for piece in input.chunks(size) {
            out.extend(relay.feed(piece));
        }
        out.extend(relay.finish());
        assert_eq!(out, pass_through_sse_stream(&input), "size {size}");
    }
}

#[test]
fn a_read_failure_ends_the_stream_properly() {
    let mut relay = RewriteRelay::new("gpt-5");
    relay.feed(&sse(&[CREATED, TEXT_DELTA]));
    let out = String::from_utf8(relay.fail("connection reset")).unwrap();
    let frames = frames(&out);
    assert_eq!(frames.len(), 2);
    let message = frame_json(frames[0])["error"].as_str().unwrap().to_string();
    assert!(message.contains("connection reset"), "{message}");
    assert_eq!(frames[1], "data: [DONE]");
    // Nothing follows the end.
    assert_eq!(relay.feed(&sse(&[TEXT_DELTA])).bytes, b"");
    assert_eq!(relay.finish().bytes, b"");
}

#[test]
fn relay_errors_have_messages() {
    for e in [
        RelayError::UpstreamRead("cut".to_string()),
        RelayError::DownstreamWrite("cut".to_string()),
    ] {
        assert!(e.message().contains("cut"), "{}", e.message());
    }
}

#[test]
fn the_end_marker_comes_last_and_once() {
    for input in [
        sse(&[CREATED, TEXT_DELTA, COMPLETED, "[DONE]", TEXT_DELTA, "[DONE]"]),
        sse(&[CREATED, "{broken", "[DONE]"]),
        sse(&[CREATED, r#"{"object":"chat.completion.chunk"}"#]),
        sse(&[]),
    ] {
        let (output, _) = run_rewrite(&input);
        let frames = frames(&output);
        let ends = frames.iter().filter(|f| **f == "data: [DONE]").count();
        assert_eq!(ends, 1, "output: {output}");
        assert_eq!(*frames.last().unwrap(), "data: [DONE]");
    }
}
