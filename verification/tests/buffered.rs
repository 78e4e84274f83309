use codex_proxy::buffered::buffer_chat_completion;
use codex_proxy::buffered::buffer_chat_completion_at;
use codex_proxy::buffered::buffer_responses_response;
use codex_proxy::buffered::make_completion;
use codex_proxy::buffered::merge_chunk;
use codex_proxy::buffered::read_final_response;
use codex_proxy::buffered::BufferError;
use codex_proxy::buffered::Gathered;
use codex_proxy::buffered::ResponseFinder;
use codex_proxy::buffered::Search;
use codex_proxy::json;
use codex_proxy::server::error::gathered;
use serde_json::Value;

fn sse(events: &[&str]) -> Vec<u8> {
    let mut out = Vec::new();
    for event in events {
        out.extend_from_slice(b"data: ");
        out.extend_from_slice(event.as_bytes());
        out.extend_from_slice(b"\n\n");
    }
    out
}

fn completion(input: &[u8], model: &str) -> Value {
    match buffer_chat_completion(input, model) {
        Ok(j) => j.to_value(),
        Err(e) => panic!("{}", e.message()),
    }
}

fn response(input: &[u8]) -> Value {
    match buffer_responses_response(input) {
        Ok(j) => j.to_value(),
        Err(e) => panic!("{}", e.message()),
    }
}

#[test]
fn aggregates_text_finish_and_usage() {
    let input = sse(&[
        r#"{"type":"response.created","sequence_number":0,"response":{"id":"resp_1"}}"#,
        r#"{"type":"response.output_text.delta","sequence_number":1,"delta":"Hello"}"#,
        r#"{"type":"response.output_text.delta","sequence_number":2,"delta":" world"}"#,
        r#"{"type":"response.completed","sequence_number":3,"response":{"usage":{"input_tokens":7,"output_tokens":3,"total_tokens":10}}}"#,
        "[DONE]",
    ]);
    let out = completion(&input, "gpt-5.1-codex");
    assert_eq!(out["id"], "chatcmpl-resp_1");
    assert_eq!(out["object"], "chat.completion");
    assert_eq!(out["model"], "gpt-5.1-codex");
    assert_eq!(out["choices"][0]["index"], 0);
    assert_eq!(out["choices"][0]["message"]["role"], "assistant");
    assert_eq!(out["choices"][0]["message"]["content"], "Hello world");
    assert_eq!(out["choices"][0]["finish_reason"], "stop");
    assert_eq!(out["usage"]["prompt_tokens"], 7);
    assert_eq!(out["usage"]["completion_tokens"], 3);
    assert_eq!(out["usage"]["total_tokens"], 10);
}

#[test]
fn aggregates_reasoning_summary_into_reasoning_content() {
    let input = sse(&[
        r#"{"type":"response.created","sequence_number":0,"response":{"id":"resp_r"}}"#,
        r#"{"type":"response.reasoning_summary_text.delta","sequence_number":1,"output_index":0,"delta":"Think"}"#,
        r#"{"type":"response.reasoning_summary_text.delta","sequence_number":2,"output_index":0,"delta":"ing..."}"#,
        r#"{"type":"response.output_text.delta","sequence_number":3,"delta":"Answer"}"#,
        r#"{"type":"response.completed","sequence_number":4,"response":{}}"#,
        "[DONE]",
    ]);
    let out = completion(&input, "gpt-5.1-codex");
    assert_eq!(
        out["choices"][0]["message"]["reasoning_content"],
        "Thinking..."
    );
    assert_eq!(out["choices"][0]["message"]["content"], "Answer");
    assert_eq!(out["choices"][0]["message"]["role"], "assistant");
    assert_eq!(out["choices"][0]["finish_reason"], "stop");
}

#[test]
fn omits_reasoning_content_when_no_reasoning_events() {
    let input = sse(&[
        r#"{"type":"response.created","sequence_number":0,"response":{"id":"resp_n"}}"#,
        r#"{"type":"response.output_text.delta","sequence_number":1,"delta":"hi"}"#,
        r#"{"type":"response.completed","sequence_number":2,"response":{}}"#,
        "[DONE]",
    ]);
    let out = completion(&input, "gpt-5");
    assert_eq!(out["choices"][0]["message"]["content"], "hi");
    assert!(out["choices"][0]["message"]
        .get("reasoning_content")
        .is_none());
}

#[test]
fn aggregates_tool_calls_across_argument_deltas() {
    let input = sse(&[
        r#"{"type":"response.created","sequence_number":0,"response":{"id":"resp_2"}}"#,
        r#"{"type":"response.output_item.added","sequence_number":1,"output_index":0,"item":{"type":"function_call","id":"fc_1","call_id":"call_abc","name":"get_weather"}}"#,
        r#"{"type":"response.function_call_arguments.delta","sequence_number":2,"item_id":"fc_1","delta":"{\"location\":"}"#,
        r#"{"type":"response.function_call_arguments.delta","sequence_number":3,"item_id":"fc_1","delta":"\"sf\"}"}"#,
        r#"{"type":"response.completed","sequence_number":4,"response":{}}"#,
        "[DONE]",
    ]);
    let out = completion(&input, "gpt-5");
    let calls = out["choices"][0]["message"]["tool_calls"]
        .as_array()
        .expect("tool_calls present");
    assert_eq!(calls.len(), 1);
    assert_eq!(calls[0]["id"], "call_abc");
    assert_eq!(calls[0]["type"], "function");
    assert_eq!(calls[0]["function"]["name"], "get_weather");
    assert_eq!(calls[0]["function"]["arguments"], r#"{"location":"sf"}"#);
    assert_eq!(out["choices"][0]["finish_reason"], "tool_calls");
}

#[test]
fn defaults_when_stream_is_minimal() {
    let input = sse(&[
        r#"{"type":"response.output_text.delta","sequence_number":1,"delta":"hi"}"#,
        "[DONE]",
    ]);
    let out = completion(&input, "gpt-5");
    assert_eq!(out["id"], "chatcmpl-buffered");
    assert_eq!(out["choices"][0]["message"]["role"], "assistant");
    assert_eq!(out["choices"][0]["message"]["content"], "hi");
    assert_eq!(out["choices"][0]["finish_reason"], "stop");
    assert!(out["choices"][0]["message"].get("tool_calls").is_none());
    assert!(out.get("usage").is_none());
    // The delta carries sequence number 1, which is the time of its chunk.
    assert_eq!(out["created"], 1);
}

#[test]
fn the_clock_gives_the_time_where_no_chunk_does() {
    let input = sse(&["[DONE]"]);
    let out = match buffer_chat_completion_at(&input, "gpt-5", 1234) {
        Ok(j) => j.to_value(),
        Err(e) => panic!("{}", e.message()),
    };
    assert_eq!(out["created"], 1234);
    assert_eq!(out["choices"][0]["message"]["content"], "");

    let before = std::time::SystemTime::now()
        .duration_since(std::time::UNIX_EPOCH)
        .unwrap()
        .as_secs() as i64;
    let created = completion(&input, "gpt-5")["created"].as_i64().unwrap();
    assert!(created >= before && created < before + 60);
}

#[test]
fn invalid_event_json_is_an_error() {
    let input = b"data: {not json\n\n".to_vec();
    let err = buffer_chat_completion(&input, "gpt-5");
    assert!(matches!(err, Err(BufferError::Transform(_))));
}

#[test]
fn two_calls_stay_apart_and_in_order() {
    let input = sse(&[
        r#"{"type":"response.output_item.added","sequence_number":1,"item":{"type":"function_call","id":"fc_1","call_id":"c1","name":"a"}}"#,
        r#"{"type":"response.output_item.added","sequence_number":2,"item":{"type":"function_call","id":"fc_2","call_id":"c2","name":"b"}}"#,
        r#"{"type":"response.function_call_arguments.delta","sequence_number":3,"item_id":"fc_2","delta":"2"}"#,
        r#"{"type":"response.function_call_arguments.delta","sequence_number":4,"item_id":"fc_1","delta":"1"}"#,
        r#"{"type":"response.function_call_arguments.delta","sequence_number":5,"item_id":"fc_2","delta":"2"}"#,
    ]);
    let out = completion(&input, "gpt-5");
    let calls = out["choices"][0]["message"]["tool_calls"].as_array().unwrap();
    assert_eq!(calls.len(), 2);
    assert_eq!(calls[0]["function"]["name"], "a");
    assert_eq!(calls[0]["function"]["arguments"], "1");
    assert_eq!(calls[1]["function"]["name"], "b");
    assert_eq!(calls[1]["function"]["arguments"], "22");
}

// ---- Responses streams ----

#[test]
fn responses_returns_the_completed_response_object_verbatim() {
    let input = sse(&[
        r#"{"type":"response.created","sequence_number":0,"response":{"id":"resp_1","status":"in_progress"}}"#,
        r#"{"type":"response.output_text.delta","sequence_number":1,"delta":"Hello"}"#,
        r#"{"type":"response.completed","sequence_number":2,"response":{"id":"resp_1","object":"response","status":"completed","output":[{"type":"message","role":"assistant","content":[{"type":"output_text","text":"Hello"}]}],"usage":{"input_tokens":7,"output_tokens":3,"total_tokens":10}}}"#,
        "[DONE]",
    ]);
    let out = response(&input);
    assert_eq!(out["id"], "resp_1");
    assert_eq!(out["object"], "response");
    assert_eq!(out["status"], "completed");
    assert_eq!(out["output"][0]["content"][0]["text"], "Hello");
    assert_eq!(out["usage"]["total_tokens"], 10);
}

#[test]
fn responses_treats_failed_and_incomplete_as_terminal() {
    for status in ["failed", "incomplete"] {
        let event = format!(
            r#"{{"type":"response.{status}","response":{{"id":"resp_2","status":"{status}"}}}}"#
        );
        let out = response(&sse(&[event.as_str()]));
        assert_eq!(out["status"], status);
    }
}

#[test]
fn responses_skips_non_json_and_untyped_frames() {
    let input = sse(&[
        "[DONE]",
        r#"{"no_type_field":true}"#,
        r#"{"type":"response.completed","response":{"id":"resp_3"}}"#,
    ]);
    assert_eq!(response(&input)["id"], "resp_3");
}

#[test]
fn responses_without_terminal_event_is_an_error() {
    let input = sse(&[r#"{"type":"response.created","response":{"id":"resp_4"}}"#]);
    match buffer_responses_response(&input) {
        Err(BufferError::MissingTerminalEvent {
            upstream_error: None,
        }) => {}
        _ => panic!("truncated stream must error"),
    }
}

#[test]
fn responses_error_event_is_retained_for_diagnostics() {
    let input = sse(&[r#"{"type":"error","code":"server_error","message":"upstream exploded"}"#]);
    let err = match buffer_responses_response(&input) {
        Err(e) => e,
        Ok(_) => panic!("error-only stream must error"),
    };
    let rendered = err.message();
    assert!(rendered.contains("upstream exploded"), "{rendered}");
    match err {
        BufferError::MissingTerminalEvent {
            upstream_error: Some(payload),
        } => assert_eq!(payload.to_value()["message"], "upstream exploded"),
        _ => panic!("expected the upstream error to be carried on the failure"),
    }
}

#[test]
fn a_read_error_has_a_message() {
    assert_eq!(
        BufferError::Read("cut".to_string()).message(),
        "error scanning SSE stream: cut"
    );
}

#[test]
fn chunks_are_merged_one_by_one() {
    let mut g = Gathered::new();
    for text in [
        r#"{"id":"c1","created":7,"model":"m1","choices":[{"delta":{"role":"assistant","content":"a"}}]}"#,
        r#"{"id":"c2","created":8,"model":"m2","choices":[{"delta":{"content":"b"}}],"usage":{"n":1}}"#,
        r#"{"choices":[{"delta":{"tool_calls":[{"index":3,"id":"t","function":{"name":"f","arguments":"{"}}]}}]}"#,
        r#"{"choices":[{"delta":{"tool_calls":[{"index":3,"function":{"arguments":"}"}}]},"finish_reason":"tool_calls"}]}"#,
        r#"{"choices":5}"#,
    ] {
        merge_chunk(&mut g, &json::parse(text.as_bytes()).unwrap());
    }
    let want: Value = serde_json::from_str(
        r#"{"id":"c1","object":"chat.completion","created":7,"model":"m1","usage":{"n":1},
            "choices":[{"index":0,"finish_reason":"tool_calls","message":{"role":"assistant",
            "content":"ab","tool_calls":[{"id":"t","type":"function",
            "function":{"name":"f","arguments":"{}"}}]}}]}"#,
    )
    .unwrap();
    assert_eq!(make_completion(g, "m", 99).to_value(), want);
}

#[test]
fn a_final_event_carries_the_response() {
    let of = |text: &str| {
        read_final_response(&json::parse(text.as_bytes()).unwrap()).map(|j| j.to_value())
    };
    let want: Value = serde_json::from_str(r#"{"id":"r"}"#).unwrap();
    assert_eq!(
        of(r#"{"type":"response.incomplete","response":{"id":"r"}}"#),
        Some(want)
    );
    assert_eq!(of(r#"{"type":"response.created","response":{"id":"r"}}"#), None);
    assert_eq!(of(r#"{"type":"response.completed","response":"r"}"#), None);
    assert_eq!(of(r#"{"response":{"id":"r"}}"#), None);
}

#[test]
fn the_response_is_found_as_soon_as_it_is_there() {
    let input = sse(&[
        r#"{"type":"error","message":"first"}"#,
        r#"{"type":"response.completed","response":{"id":"r"}}"#,
    ]);
    let mut finder = ResponseFinder::new();
    for (i, byte) in input.iter().enumerate() {
        match finder.feed(&[*byte]) {
            Search::Found(j) => {
                assert_eq!(j.to_value()["id"], "r");
                assert_eq!(i, input.len() - 1);
                return;
            }
            Search::Open(open) => finder = open,
        }
    }
    panic!("not found");
}

#[test]
fn a_final_event_may_lack_its_blank_line() {
    let input = b"data: {\"type\":\"response.failed\",\"response\":{\"id\":\"r\"}}";
    match ResponseFinder::new().feed(input) {
        Search::Found(_) => panic!("found too early"),
        Search::Open(open) => match open.finish() {
            Ok(j) => assert_eq!(j.to_value()["id"], "r"),
            Err(e) => panic!("{}", e.message()),
        },
    }
}

#[test]
fn a_client_is_not_told_why_gathering_failed() {
    match gathered(Err(BufferError::Read("secret".to_string()))) {
        Ok(_) => panic!("gathered"),
        Err(e) => {
            let (status, body) = e.into_response();
            assert_eq!(status, 500);
            assert_eq!(
                body.to_text(),
                r#"{"error":"Failed to process streaming response"}"#
            );
        }
    }
    assert!(gathered(Ok(json::parse(b"1").unwrap())).is_ok());
}
