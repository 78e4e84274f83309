use codex_proxy::transform::upstream::OutputItem;
use codex_proxy::transform::SSETransformer;
use codex_proxy::transform::TransformError;
use codex_proxy::transform::TransformResult;
use serde_json::Value;

/// The frames of a result that emits some, one to a line.
fn emitted_bytes(result: TransformResult) -> Vec<u8> {
    match result {
        TransformResult::Emitted(frames) => frames.join(&b'\n'),
        _ => panic!("expected Emitted"),
    }
}

fn parse_json_lines(bytes: &[u8]) -> Vec<Value> {
    std::str::from_utf8(bytes)
        .expect("valid utf8")
        .lines()
        .map(|line| serde_json::from_str::<Value>(line).expect("valid json line"))
        .collect()
}

/// A value, written as JSON.
fn json(text: &str) -> Value {
    serde_json::from_str(text).expect("valid json")
}

fn feed(t: &mut SSETransformer, event: &str) -> TransformResult {
    t.transform(event.as_bytes()).expect("transform succeeds")
}

// --- response.created ---

#[test]
fn handles_response_created_and_stores_response_id() {
    let input = br#"{"type":"response.created","sequence_number":0,"response":{"id":"resp_123"}}"#;
    let mut transformer = SSETransformer::new("");

    let result = transformer.transform(input).expect("transform succeeds");

    assert!(matches!(result, TransformResult::Swallowed));
    assert_eq!(transformer.response_id, "chatcmpl-resp_123");
}

// --- response.created with missing id ---

#[test]
fn handles_created_without_response_id_gracefully() {
    let input = br#"{"type":"response.created","sequence_number":0,"response":{}}"#;
    let mut transformer = SSETransformer::new("gpt-5");
    transformer.response_id = "chatcmpl-old".to_string();

    let result = transformer.transform(input).expect("transform succeeds");
    assert!(matches!(result, TransformResult::Swallowed));
    // response_id should remain unchanged — not overwritten with empty
    assert_eq!(transformer.response_id, "chatcmpl-old");
}

// --- response.created resets state ---

#[test]
fn handles_created_resets_per_response_state() {
    let mut transformer = SSETransformer::new("");
    transformer.response_id = "chatcmpl-old".to_string();
    transformer.role_sent = true;
    transformer.saw_tool_calls = true;
    transformer
        .tool_index_by_item_id
        .insert("fc_old".to_string(), 5);
    transformer.next_tool_index = 5;

    let input = br#"{"type":"response.created","sequence_number":0,"response":{"id":"resp_new"}}"#;
    let result = transformer.transform(input).expect("transform succeeds");
    assert!(matches!(result, TransformResult::Swallowed));
    assert_eq!(transformer.response_id, "chatcmpl-resp_new");
    assert!(!transformer.role_sent);
    assert!(!transformer.saw_tool_calls);
    assert!(transformer.tool_index_by_item_id.is_empty());
    assert_eq!(transformer.next_tool_index, 0);
}

// --- output_text.delta (first) ---

#[test]
fn transforms_first_output_text_delta_into_role_and_content_chunks() {
    let mut transformer = SSETransformer::new("");
    transformer.response_id = "chatcmpl-resp_123".to_string();

    let input = br#"{"type":"response.output_text.delta","sequence_number":80,"item_id":"msg_123","output_index":1,"content_index":0,"delta":"Hello"}"#;

    let result = transformer.transform(input).expect("transform succeeds");

    let out = emitted_bytes(result);
    let chunks = parse_json_lines(&out);
    assert_eq!(chunks.len(), 2);

    assert_eq!(
        chunks[0]["choices"][0]["delta"],
        json(r#"{"role": "assistant"}"#)
    );
    assert_eq!(
        chunks[1]["choices"][0]["delta"],
        json(r#"{"content": "Hello"}"#)
    );
}

// --- output_text.delta (subsequent) ---

#[test]
fn handles_subsequent_output_text_delta_without_role() {
    let mut transformer = SSETransformer::new("");
    transformer.response_id = "chatcmpl-resp_123".to_string();
    transformer.role_sent = true;

    let input = br#"{"type":"response.output_text.delta","sequence_number":81,"item_id":"msg_123","output_index":1,"content_index":0,"delta":" world"}"#;

    let result = transformer.transform(input).expect("transform succeeds");

    let out = emitted_bytes(result);
    let chunk: Value = serde_json::from_slice(&out).expect("valid json");
    assert_eq!(chunk["object"], json(r#""chat.completion.chunk""#));
    assert_eq!(chunk["choices"][0]["delta"]["content"], json(r#"" world""#));
    assert!(chunk["choices"][0]["delta"]["role"].is_null());
}

// --- reasoning delta ---

#[test]
fn handles_reasoning_delta_event() {
    let mut transformer = SSETransformer::new("");
    transformer.response_id = "chatcmpl-resp_123".to_string();

    let input = br#"{"type":"response.reasoning_summary_text.delta","sequence_number":5,"item_id":"rs_1","summary_index":0,"delta":"Thinking..."}"#;

    let result = transformer.transform(input).expect("transform succeeds");
    let out = emitted_bytes(result);
    let lines = parse_json_lines(&out);
    assert_eq!(lines.len(), 2);

    assert_eq!(lines[0]["choices"][0]["delta"]["role"], json(r#""assistant""#));
    assert_eq!(
        lines[1]["choices"][0]["delta"]["reasoning_content"],
        json(r#""Thinking...""#)
    );
}

// --- [DONE] ---

#[test]
fn handles_done_marker() {
    let mut transformer = SSETransformer::new("");
    let input = b"[DONE]";

    let result = transformer.transform(input).expect("transform succeeds");

    assert!(matches!(result, TransformResult::Done));
}

// --- ignored events ---

#[test]
fn ignores_unknown_events() {
    let mut transformer = SSETransformer::new("");
    let input = br#"{"type":"response.in_progress","sequence_number":1,"response":{}}"#;

    let result = transformer.transform(input).expect("transform succeeds");

    assert!(matches!(result, TransformResult::Swallowed));
}

// --- completed with usage ---

#[test]
fn transforms_completed_event_into_final_chunk_with_usage() {
    let mut transformer = SSETransformer::new("");
    transformer.response_id = "chatcmpl-resp_123".to_string();

    let input = br#"{"type":"response.completed","sequence_number":92,"response":{"usage":{"input_tokens":11,"output_tokens":7}}}"#;

    let result = transformer.transform(input).expect("transform succeeds");

    let out = emitted_bytes(result);
    let chunk: Value = serde_json::from_slice(&out).expect("valid json");

    assert_eq!(chunk["object"], json(r#""chat.completion.chunk""#));
    assert_eq!(chunk["choices"][0]["finish_reason"], json(r#""stop""#));
    assert_eq!(
        chunk["usage"],
        json(r#"{ "prompt_tokens": 11, "completion_tokens": 7, "total_tokens": 18 }"#)
    );
}

// --- completed with upstream total_tokens ---

#[test]
fn completed_prefers_upstream_total_tokens() {
    let mut transformer = SSETransformer::new("");
    transformer.response_id = "chatcmpl-resp_123".to_string();

    let input = br#"{"type":"response.completed","sequence_number":92,"response":{"usage":{"input_tokens":11,"output_tokens":7,"total_tokens":100}}}"#;

    let result = transformer.transform(input).expect("transform succeeds");
    let out = emitted_bytes(result);
    let chunk: Value = serde_json::from_slice(&out).expect("valid json");
    assert_eq!(chunk["usage"]["total_tokens"], json(r#"100"#));
}

// --- completed without usage (now emits zeroed usage) ---

#[test]
fn handles_completed_without_usage() {
    let mut transformer = SSETransformer::new("");
    transformer.response_id = "chatcmpl-resp_123".to_string();

    let input = br#"{"type":"response.completed","sequence_number":92,"response":{}}"#;

    let result = transformer.transform(input).expect("transform succeeds");

    let out = emitted_bytes(result);
    let chunk: Value = serde_json::from_slice(&out).expect("valid json");
    assert_eq!(chunk["choices"][0]["finish_reason"], json(r#""stop""#));
    // Must emit a zeroed usage object, not omit it
    assert_eq!(
        chunk["usage"],
        json(r#"{ "prompt_tokens": 0, "completion_tokens": 0, "total_tokens": 0 }"#)
    );
}

// --- tool-call output_item.added ---

#[test]
fn handles_output_item_added_for_function_call() {
    let mut transformer = SSETransformer::new("");
    transformer.response_id = "chatcmpl-resp_456".to_string();

    let input = br#"{"type":"response.output_item.added","sequence_number":30,"item":{"id":"fc_1","call_id":"call_abc","type":"function_call","name":"get_weather"}}"#;

    let result = transformer.transform(input).expect("transform succeeds");
    let out = emitted_bytes(result);
    let lines = parse_json_lines(&out);
    assert_eq!(lines.len(), 2);

    assert_eq!(lines[0]["choices"][0]["delta"]["role"], json(r#""assistant""#));

    let tc = &lines[1]["choices"][0]["delta"]["tool_calls"][0];
    assert_eq!(tc["index"], json(r#"0"#));
    assert_eq!(tc["id"], json(r#""call_abc""#));
    assert_eq!(tc["type"], json(r#""function""#));
    assert_eq!(tc["function"]["name"], json(r#""get_weather""#));
    assert_eq!(tc["function"]["arguments"], json(r#""""#));

    assert!(transformer.saw_tool_calls);
    assert_eq!(transformer.tool_index_by_item_id.get("fc_1"), Some(&0));
    assert_eq!(transformer.tool_id_by_item_id.get("fc_1").map(|s| s.as_str()), Some("call_abc"));
}

// --- tool-call output_item.added with empty id/name is swallowed ---

#[test]
fn swallows_output_item_added_with_empty_id_or_name() {
    let mut transformer = SSETransformer::new("");
    transformer.response_id = "chatcmpl-resp_456".to_string();

    let input = br#"{"type":"response.output_item.added","sequence_number":30,"item":{"id":"","call_id":"","type":"function_call","name":""}}"#;

    let result = transformer.transform(input).expect("transform succeeds");
    assert!(matches!(result, TransformResult::Swallowed));
    assert!(!transformer.saw_tool_calls);
}

// --- function_call_arguments.delta ---

#[test]
fn handles_function_call_args_delta() {
    let mut transformer = SSETransformer::new("");
    transformer.response_id = "chatcmpl-resp_456".to_string();
    transformer.role_sent = true;
    transformer.saw_tool_calls = true;
    transformer
        .tool_index_by_item_id
        .insert("fc_1".to_string(), 0);

    let input = br#"{"type":"response.function_call_arguments.delta","sequence_number":31,"item_id":"fc_1","delta":"{\"city\":"}"#;

    let result = transformer.transform(input).expect("transform succeeds");
    let out = emitted_bytes(result);
    let chunk: Value = serde_json::from_slice(&out).expect("valid json");
    let tc = &chunk["choices"][0]["delta"]["tool_calls"][0];
    assert_eq!(tc["index"], json(r#"0"#));
    assert_eq!(tc["function"]["arguments"], json(r#""{\"city\":""#));
}

// --- ignored explicit events ---

#[test]
fn ignores_function_call_arguments_done() {
    let mut transformer = SSETransformer::new("");
    let input = br#"{"type":"response.function_call_arguments.done","sequence_number":32,"item_id":"fc_1"}"#;

    let result = transformer.transform(input).expect("transform succeeds");
    assert!(matches!(result, TransformResult::Swallowed));
}

#[test]
fn ignores_output_item_done() {
    let mut transformer = SSETransformer::new("");
    let input = br#"{"type":"response.output_item.done","sequence_number":33,"item":{"id":"fc_1","type":"function_call"}}"#;

    let result = transformer.transform(input).expect("transform succeeds");
    assert!(matches!(result, TransformResult::Swallowed));
}

// --- reasoning edge cases ---

#[test]
fn skips_reasoning_events_with_nonzero_output_index() {
    let mut transformer = SSETransformer::new("");
    transformer.response_id = "chatcmpl-resp_123".to_string();

    let input = br#"{"type":"response.reasoning_summary_text.delta","sequence_number":10,"item_id":"rs_2","output_index":1,"summary_index":0,"delta":"More thinking"}"#;

    let result = transformer.transform(input).expect("transform succeeds");
    assert!(matches!(result, TransformResult::Swallowed));
}

#[test]
fn skips_reasoning_events_that_are_not_deltas() {
    let mut transformer = SSETransformer::new("");
    transformer.response_id = "chatcmpl-resp_123".to_string();

    let input = br#"{"type":"response.reasoning_summary_text.done","sequence_number":10,"item_id":"rs_1","output_index":0,"summary_index":0,"delta":"Done thinking"}"#;

    let result = transformer.transform(input).expect("transform succeeds");
    assert!(matches!(result, TransformResult::Swallowed));
}

// --- completed with tool_calls finish reason ---

#[test]
fn handles_completed_with_tool_calls_finish_reason() {
    let mut transformer = SSETransformer::new("");
    transformer.response_id = "chatcmpl-resp_456".to_string();
    transformer.saw_tool_calls = true;

    let input = br#"{"type":"response.completed","sequence_number":92,"response":{}}"#;

    let result = transformer.transform(input).expect("transform succeeds");
    let out = emitted_bytes(result);
    let chunk: Value = serde_json::from_slice(&out).expect("valid json");
    assert_eq!(chunk["choices"][0]["finish_reason"], json(r#""tool_calls""#));
}

// --- several events ---

#[test]
fn state_reset_across_responses() {
    let mut t = SSETransformer::new("gpt-5");
    let r1 = r#"{"type": "response.created", "response": {"id": "abc"}}"#;
    t.transform(r1.as_bytes()).unwrap();
    // send text delta
    let td = r#"{"type": "response.output_text.delta", "delta": "hello", "sequence_number": 1}"#;
    let result = t.transform(td.as_bytes()).unwrap();
    assert!(matches!(result, TransformResult::Emitted(_)));
    assert!(t.role_sent);
    // new response.created resets
    let r2 = r#"{"type": "response.created", "response": {"id": "def"}}"#;
    t.transform(r2.as_bytes()).unwrap();
    assert!(!t.role_sent, "role_sent should be reset");
    assert!(
        t.response_id.contains("def"),
        "response_id should be updated"
    );
}

#[test]
fn multiple_tool_calls_indexed() {
    let mut t = SSETransformer::new("gpt-5");
    t.response_id = "chatcmpl-test".to_string();
    // First tool
    let item1 = r#"{ "type": "response.output_item.added", "item": {"id": "fc1", "call_id": "call_1", "name": "tool_a", "type": "function_call"} }"#;
    let r1 = t.transform(item1.as_bytes()).unwrap();
    let out1 = emitted_bytes(r1);
    let lines1 = parse_json_lines(&out1);
    // lines[0] = role, lines[1] = tool_call chunk
    let tc1 = &lines1[1]["choices"][0]["delta"]["tool_calls"][0];
    assert_eq!(tc1["index"], json(r#"0"#));

    // Second tool — role already sent, so only the tool_call chunk
    let item2 = r#"{ "type": "response.output_item.added", "item": {"id": "fc2", "call_id": "call_2", "name": "tool_b", "type": "function_call"} }"#;
    let r2 = t.transform(item2.as_bytes()).unwrap();
    let out2 = emitted_bytes(r2);
    let lines2 = parse_json_lines(&out2);
    // No role frame this time (role already sent), so single frame at index 0
    let tc2 = &lines2[0]["choices"][0]["delta"]["tool_calls"][0];
    assert_eq!(tc2["index"], json(r#"1"#));
}

#[test]
fn completed_with_tool_calls_finish_reason() {
    let mut t = SSETransformer::new("gpt-5");
    t.response_id = "chatcmpl-test".to_string();
    // Trigger tool call
    let item = r#"{ "type": "response.output_item.added", "item": {"id": "fc1", "call_id": "call_1", "name": "tool_a", "type": "function_call"} }"#;
    t.transform(item.as_bytes()).unwrap();
    // Complete
    let completed = r#"{ "type": "response.completed", "response": {"usage": {"input_tokens": 10, "output_tokens": 5}} }"#;
    let result = t
        .transform(completed.as_bytes())
        .unwrap();
    let bytes = match result {
        TransformResult::Emitted(b) => b,
        _ => panic!("expected Emitted"),
    };
    let chunk: Value = serde_json::from_slice(&bytes[0]).unwrap();
    assert_eq!(chunk["choices"][0]["finish_reason"], json(r#""tool_calls""#));
}

#[test]
fn reasoning_summary_extracted() {
    let mut t = SSETransformer::new("gpt-5");
    t.response_id = "chatcmpl-test".to_string();
    let event = r#"{ "type": "response.reasoning.delta", "summary": [{ "type": "summary_text", "text": "thinking about it" }] }"#;
    let result = t.transform(event.as_bytes()).unwrap();
    assert!(matches!(result, TransformResult::Emitted(_)));
}

#[test]
fn empty_input_swallowed() {
    let mut t = SSETransformer::new("gpt-5");
    let result = t.transform(b"").unwrap();
    assert!(matches!(result, TransformResult::Swallowed));
    let result2 = t.transform(b"   ").unwrap();
    assert!(matches!(result2, TransformResult::Swallowed));
}

// --- errors ---

#[test]
fn an_event_that_is_no_json_is_an_error() {
    let mut t = SSETransformer::new("gpt-5");
    let result = t.transform(b"{not json");
    assert!(matches!(result, Err(TransformError::InvalidJson(_))));
}

#[test]
fn a_member_of_the_wrong_type_is_an_error() {
    let mut t = SSETransformer::new("gpt-5");
    let cases = [
        (
            r#"{"type":"response.created","response":{"id":7}}"#,
            "invalid type: integer `7`, expected a string",
        ),
        (
            r#"{"type":"response.output_text.delta","delta":[]}"#,
            "invalid type: sequence, expected a string",
        ),
        (
            r#"{"type":"response.completed","response":{"usage":{"input_tokens":"x"}}}"#,
            "invalid type: string \"x\", expected i64",
        ),
        (
            r#"{"type":"response.completed","response":{"usage":{"total_tokens":9223372036854775808}}}"#,
            "invalid value: integer `9223372036854775808`, expected i64",
        ),
        (
            r#"{"type":"response.output_text.delta","sequence_number":-1,"delta":"a"}"#,
            "invalid value: integer `-1`, expected u64",
        ),
        (r#"{"type":"response.created"}"#, "missing field `response`"),
        (r#"{"response":{"id":"r"}}"#, "missing field `type`"),
        (
            r#"{"type":"response.completed","response":{"usage":true}}"#,
            "invalid field `usage`",
        ),
    ];
    for (event, message) in cases {
        match t.transform(event.as_bytes()) {
            Err(e) => assert_eq!(
                e.message(),
                format!("invalid upstream JSON chunk: {message}")
            ),
            Ok(_) => panic!("{event}"),
        }
    }
}

#[test]
fn of_several_bad_members_the_first_by_key_is_reported() {
    let mut t = SSETransformer::new("gpt-5");
    let cases = [
        (
            r#"{"type":"response.output_item.added","item":{"type":1,"name":2,"id":3,"call_id":4}}"#,
            "invalid type: integer `4`, expected a string",
        ),
        (
            r#"{"type":"response.function_call_arguments.delta","item_id":1,"delta":2}"#,
            "invalid type: integer `2`, expected a string",
        ),
        (
            r#"{"type":"response.completed","response":{"usage":{"total_tokens":"t","prompt_tokens":"p","output_tokens":"o","completion_tokens":"c"}}}"#,
            "invalid type: string \"c\", expected i64",
        ),
    ];
    for (event, message) in cases {
        match t.transform(event.as_bytes()) {
            Err(TransformError::InvalidJson(m)) => assert_eq!(m, message),
            _ => panic!("{event}"),
        }
    }
}

// --- the role and the calls ---

#[test]
fn the_role_comes_first_and_once() {
    let mut t = SSETransformer::new("gpt-5");
    let one = r#"{"type":"response.output_text.delta","sequence_number":1,"delta":"a"}"#;
    let first = parse_json_lines(&emitted_bytes(feed(&mut t, one)));
    assert_eq!(first.len(), 2);
    assert_eq!(first[0]["choices"][0]["delta"]["role"], "assistant");
    let second = parse_json_lines(&emitted_bytes(feed(&mut t, one)));
    assert_eq!(second.len(), 1);
    assert!(second[0]["choices"][0]["delta"].get("role").is_none());
}

#[test]
fn calls_get_indexes_of_their_own() {
    let mut t = SSETransformer::new("gpt-5");
    for (i, id) in ["x", "y", "z"].iter().enumerate() {
        let event = format!(
            r#"{{"type":"response.output_item.added","item":{{"id":"{id}","call_id":"c{id}","name":"n","type":"function_call"}}}}"#
        );
        feed(&mut t, &event);
        assert_eq!(t.tool_index_by_item_id.get(id), Some(&i));
    }
    assert_eq!(t.next_tool_index, 3);
}

#[test]
fn details_of_the_usage_are_kept() {
    let mut t = SSETransformer::new("gpt-5");
    let event = r#"{"type":"response.completed","sequence_number":9,"response":{"usage":{"input_tokens":11,"output_tokens":7,"input_tokens_details":{"cached_tokens":4},"output_tokens_details":{"reasoning_tokens":2}}}}"#;
    let chunk: Value = serde_json::from_slice(&emitted_bytes(feed(&mut t, event))).unwrap();
    assert_eq!(chunk["usage"]["prompt_tokens_details"]["cached_tokens"], 4);
    assert_eq!(
        chunk["usage"]["completion_tokens_details"]["reasoning_tokens"],
        2
    );
}

#[test]
fn a_chunk_is_written_whole() {
    let mut t = SSETransformer::new("gpt-5");
    t.response_id = "chatcmpl-r".to_string();
    t.role_sent = true;
    let written = |t: &mut SSETransformer, event: &str| {
        String::from_utf8(emitted_bytes(feed(t, event))).expect("valid utf8")
    };
    assert_eq!(
        written(
            &mut t,
            r#"{"type":"response.output_text.delta","sequence_number":3,"delta":"h\ti"}"#
        ),
        r#"{"id":"chatcmpl-r","object":"chat.completion.chunk","created":3,"model":"gpt-5","choices":[{"index":0,"delta":{"content":"h\ti"},"finish_reason":null}]}"#
    );
    assert_eq!(
        written(
            &mut t,
            r#"{"type":"response.output_item.added","item":{"type":"function_call","id":"x","name":"f"}}"#
        ),
        r#"{"id":"chatcmpl-r","object":"chat.completion.chunk","created":null,"model":"gpt-5","choices":[{"index":0,"delta":{"tool_calls":[{"index":0,"id":"call_x","type":"function","function":{"name":"f","arguments":""}}]},"finish_reason":null}]}"#
    );
    assert_eq!(
        written(
            &mut t,
            r#"{"type":"response.completed","sequence_number":4,"response":{"usage":{"input_tokens":5,"output_tokens":7,"total_tokens":12,"input_tokens_details":{"cached_tokens":2},"output_tokens_details":{"reasoning_tokens":3}}}}"#
        ),
        r#"{"id":"chatcmpl-r","object":"chat.completion.chunk","created":4,"model":"gpt-5","choices":[{"index":0,"delta":{},"finish_reason":"tool_calls"}],"usage":{"prompt_tokens":5,"completion_tokens":7,"total_tokens":12,"prompt_tokens_details":{"cached_tokens":2},"completion_tokens_details":{"reasoning_tokens":3}}}"#
    );
}

#[test]
fn the_role_is_announced_by_itself_once() {
    let mut t = SSETransformer::new("gpt-5");
    t.response_id = "chatcmpl-r".to_string();
    let frame = t.send_role(Some(1)).expect("the role is due");
    assert_eq!(
        String::from_utf8(frame).expect("valid utf8"),
        r#"{"id":"chatcmpl-r","object":"chat.completion.chunk","created":1,"model":"gpt-5","choices":[{"index":0,"delta":{"role":"assistant"},"finish_reason":null}]}"#
    );
    assert!(t.send_role(Some(2)).is_none());
    assert!(t.role_sent);
}

#[test]
fn an_item_that_is_announced_takes_the_next_index() {
    let mut t = SSETransformer::new("gpt-5");
    let item = |kind: &str, id: &str| OutputItem {
        item_type: kind.to_string(),
        id: id.to_string(),
        call_id: String::new(),
        name: "f".to_string(),
    };
    assert!(matches!(
        t.handle_output_item_added(None, item("message", "m")),
        TransformResult::Swallowed
    ));
    assert!(!t.saw_tool_calls);
    for (id, index) in [("x", 0), ("y", 1), ("x", 0)] {
        let frames = emitted_bytes(t.handle_output_item_added(None, item("function_call", id)));
        let last = parse_json_lines(&frames).pop().expect("a chunk");
        assert_eq!(last["choices"][0]["delta"]["tool_calls"][0]["index"], index);
    }
    assert_eq!(t.next_tool_index, 2);
    assert!(t.saw_tool_calls);
}

#[test]
fn a_parsed_event_is_transformed_like_its_text() {
    let events = [
        r#"{"type":"response.created","response":{"id":"r1","created_at":5}}"#,
        r#"{"type":"response.output_text.delta","delta":"hi"}"#,
        r#"{"type":"response.completed","response":{"id":"r1"}}"#,
    ];
    let mut a = SSETransformer::new("gpt-5");
    let mut b = SSETransformer::new("gpt-5");
    for event in events {
        let from_text = a.transform(event.as_bytes());
        let from_value = b.transform_parsed(codex_proxy::json::parse(event.as_bytes()));
        match (from_text, from_value) {
            (Ok(TransformResult::Emitted(x)), Ok(TransformResult::Emitted(y))) => assert_eq!(x, y),
            (Ok(TransformResult::Swallowed), Ok(TransformResult::Swallowed)) => {}
            _ => panic!("{event}"),
        }
    }
    match b.transform_parsed(Err("no value".to_string())) {
        Err(TransformError::InvalidJson(m)) => assert_eq!(m, "no value"),
        _ => panic!("accepted"),
    }
}

#[test]
fn an_item_keeps_the_place_of_its_first_appearance() {
    let mut t = SSETransformer::new("gpt-5");
    let mut indexes = Vec::new();
    let mut roles = 0;
    for id in ["x", "y", "x", "z", "y"] {
        let event = format!(
            r#"{{"type":"response.output_item.added","sequence_number":1,"item":{{"type":"function_call","id":"{id}","name":"f"}}}}"#
        );
        for chunk in parse_json_lines(&emitted_bytes(feed(&mut t, &event))) {
            let delta = &chunk["choices"][0]["delta"];
            if delta.get("role").is_some() {
                roles += 1;
            } else {
                let call = &delta["tool_calls"][0];
                assert_eq!(call["id"], format!("call_{id}"));
                indexes.push(call["index"].as_u64().unwrap());
            }
        }
    }
    assert_eq!(indexes, [0, 1, 0, 2, 1]);
    assert_eq!(roles, 1);
    assert_eq!(t.next_tool_index, 3);
    assert!(t.saw_tool_calls);
}
