use codex_proxy::json;
use codex_proxy::json::Json;
use codex_proxy::names::replace_names;
use codex_proxy::request::build_codex_request_body;
use codex_proxy::request::derive_prompt_cache_key;
use codex_proxy::request::extract_arguments_string;
use codex_proxy::request::extract_first_user_text;
use codex_proxy::request::extract_instructions;
use codex_proxy::digest::format_uuid;
use codex_proxy::request::hash_to_uuid;
use codex_proxy::request::resolve_reasoning_effort;
use codex_proxy::request::resolve_reasoning_summary;
use codex_proxy::request::resolve_request_model;
use codex_proxy::request::transform_responses_request_body;
use codex_proxy::request::Prompts;
use serde_json::Value;

fn json(text: &str) -> Json {
    json::from_value(value(text))
}

fn value(text: &str) -> Value {
    serde_json::from_str(text).expect("valid json")
}

fn prompts() -> Prompts {
    Prompts {
        codex_instructions_prefix: "You are Codex.".to_string(),
        inverse_prompt: "Follow the next message.".to_string(),
    }
}

fn chat_body(request: &str) -> Value {
    build_codex_request_body(&json(request), &prompts()).to_value()
}

// ---- Responses requests ----

#[test]
fn responses_normalizes_model_effort_and_replaces_names() {
    let mut body = json(
        r#"{
        "instructions": "Please greet Zed.",
        "input": [{
            "role": "user",
            "content": [{ "type": "input_text", "text": "Hello from Zed" }]
        }],
        "reasoning_effort": "none"
    }"#,
    );
    let (model, effort) =
        transform_responses_request_body(&mut body, "gpt-5-codex-preview", "none");
    assert_eq!(model, "gpt-5-codex");
    assert_eq!(effort, "low");

    let body = body.to_value();
    let instr = body["instructions"].as_str().unwrap();
    assert!(!instr.is_empty());
    assert!(!instr.contains("Please greet Codex."));

    let found = body["input"].as_array().unwrap().iter().any(|msg| {
        msg["content"].as_array().is_some_and(|c| {
            c.first()
                .and_then(|item| item["text"].as_str())
                .is_some_and(|t| t == "Hello from Codex")
        })
    });
    assert!(
        found,
        "expected replaced user text in input: {:?}",
        body["input"]
    );

    assert_eq!(body["reasoning"]["effort"], "low");
    assert_eq!(body["store"], false);
    assert_eq!(body["stream"], true);
    assert_eq!(body["include"], value(r#"["reasoning.encrypted_content"]"#));
    assert_eq!(body["tool_choice"], "auto");
    assert_eq!(body["parallel_tool_calls"], false);

    assert!(body.get("max_output_tokens").is_none());
    assert!(body.get("max_tokens").is_none());
    assert!(body.get("reasoning_effort").is_none());

    for entry in body["input"].as_array().unwrap() {
        assert!(!entry.is_array(), "input entry should be a message object");
    }
}

#[test]
fn responses_clamps_effort_per_model() {
    let base = || {
        json(
            r#"{
            "instructions": "Do something.",
            "input": [{
                "role": "user",
                "content": [{ "type": "input_text", "text": "Hello" }]
            }]
        }"#,
        )
    };

    // explicit low clamps to medium on the mini model.
    let mut b1 = base();
    let (m1, e1) = transform_responses_request_body(&mut b1, "gpt-5.1-codex-mini", "low");
    assert_eq!(m1, "gpt-5.1-codex-mini");
    assert_eq!(e1, "medium");
    assert_eq!(b1.to_value()["reasoning"]["effort"], "medium");

    // no effort defaults to the model default (medium).
    let mut b2 = base();
    let (m2, e2) = transform_responses_request_body(&mut b2, "gpt-5.1-codex-mini", "");
    assert_eq!(m2, "gpt-5.1-codex-mini");
    assert_eq!(e2, "medium");
    assert_eq!(b2.to_value()["reasoning"]["effort"], "medium");

    // codex-max preserves xhigh.
    let mut b3 = base();
    let (m3, e3) = transform_responses_request_body(&mut b3, "gpt-5.1-codex-max", "xhigh");
    assert_eq!(m3, "gpt-5.1-codex-max");
    assert_eq!(e3, "xhigh");
    assert_eq!(b3.to_value()["reasoning"]["effort"], "xhigh");

    // codex-max defaults to low when unspecified.
    let mut b4 = base();
    let (m4, e4) = transform_responses_request_body(&mut b4, "gpt-5.1-codex-max", "");
    assert_eq!(m4, "gpt-5.1-codex-max");
    assert_eq!(e4, "low");
    assert_eq!(b4.to_value()["reasoning"]["effort"], "low");
}

#[test]
fn responses_keeps_other_members_and_drops_system_entries() {
    let mut body = json(
        r#"{"input":[{"role":"system","content":"s"},{"role":"user","content":"u"}],"metadata":{"k":[1,2]},"max_tokens":5}"#,
    );
    transform_responses_request_body(&mut body, "gpt-5", "");
    let body = body.to_value();
    assert_eq!(body["metadata"], value(r#"{"k":[1,2]}"#));
    let roles: Vec<&str> = body["input"]
        .as_array()
        .unwrap()
        .iter()
        .map(|m| m["role"].as_str().unwrap())
        .collect();
    assert!(!roles.contains(&"system"), "{roles:?}");
    assert!(roles.contains(&"user"), "{roles:?}");
}

#[test]
fn responses_leaves_what_is_no_object() {
    let mut body = json("[1,2]");
    let (model, effort) = transform_responses_request_body(&mut body, "gpt-5", "low");
    assert_eq!((model.as_str(), effort.as_str()), ("", ""));
    assert_eq!(body.to_value(), value("[1,2]"));
}

// ---- chat requests ----

#[test]
fn build_codex_request_sets_static_fields_and_prepends_greeting() {
    let body = chat_body(
        r#"{
        "model": "gpt-5.2-high",
        "messages": [
            { "role": "system", "content": "You help with Zed." },
            { "role": "user", "content": "Fix the bug in Cursor" }
        ]
    }"#,
    );
    assert_eq!(body["model"], "gpt-5.2");
    assert_eq!(body["instructions"], "You are Codex.");
    assert_eq!(body["store"], false);
    assert_eq!(body["stream"], true);
    assert_eq!(body["include"], value(r#"["reasoning.encrypted_content"]"#));
    assert_eq!(body["tool_choice"], "auto");
    assert_eq!(body["parallel_tool_calls"], false);
    // gpt-5.2 with effort suffix -high resolves to high.
    assert_eq!(body["reasoning"]["effort"], "high");

    let input = body["input"].as_array().unwrap();
    assert_eq!(input[0]["role"], "developer");
    assert_eq!(input[0]["content"][0]["text"], "Follow the next message.");
    assert_eq!(input[1]["role"], "developer");
    assert_eq!(input[1]["content"][0]["text"], "You help with Codex.");
    assert_eq!(input[2]["role"], "user");
    assert_eq!(input[2]["content"][0]["text"], "Fix the bug in Codex");

    // a prompt_cache_key was derived (36-char UUID).
    let key = body["prompt_cache_key"].as_str().unwrap();
    assert_eq!(key.len(), 36);
}

#[test]
fn build_codex_request_maps_tools_and_no_tools_is_null() {
    let body = chat_body(
        r#"{
        "model": "gpt-5",
        "messages": [{ "role": "user", "content": "hi" }],
        "tools": [{
            "type": "function",
            "function": {
                "name": "get_weather",
                "description": "Get weather",
                "parameters": { "type": "object" }
            }
        }, {
            "type": "other",
            "function": { "name": "ignored" }
        }]
    }"#,
    );
    let tools = body["tools"].as_array().unwrap();
    assert_eq!(tools.len(), 1);
    assert_eq!(tools[0]["type"], "function");
    assert_eq!(tools[0]["name"], "get_weather");
    assert_eq!(tools[0]["strict"], false);
    assert_eq!(tools[0]["parameters"], value(r#"{ "type": "object" }"#));

    let body = chat_body(
        r#"{ "model": "gpt-5", "messages": [{ "role": "user", "content": "hi" }] }"#,
    );
    assert_eq!(body["tools"], Value::Null);
}

#[test]
fn build_codex_request_maps_assistant_tool_calls_and_tool_output() {
    let body = chat_body(
        r#"{
        "model": "gpt-5",
        "messages": [
            { "role": "user", "content": "call the tool" },
            {
                "role": "assistant",
                "content": "",
                "tool_calls": [{
                    "id": "call_abc",
                    "function": { "name": "lookup", "arguments": "{\"q\":1}" }
                }]
            },
            { "role": "tool", "tool_call_id": "call_abc", "content": "result text" }
        ]
    }"#,
    );
    let input = body["input"].as_array().unwrap();

    let fc = input
        .iter()
        .find(|m| m["type"] == "function_call")
        .expect("function_call entry present");
    assert_eq!(fc["name"], "lookup");
    assert_eq!(fc["call_id"], "call_abc");
    assert_eq!(fc["arguments"], "{\"q\":1}");

    let fco = input
        .iter()
        .find(|m| m["type"] == "function_call_output")
        .expect("function_call_output entry present");
    assert_eq!(fco["call_id"], "call_abc");
    assert_eq!(fco["output"], "result text");
}

// ---- parts ----

#[test]
fn the_model_defaults() {
    assert_eq!(resolve_request_model(&json(r#"{"model":" gpt-5.2 "}"#)), "gpt-5.2");
    assert_eq!(resolve_request_model(&json(r#"{"model":"  "}"#)), "gpt-5");
    assert_eq!(resolve_request_model(&json(r#"{"model":1}"#)), "gpt-5");
    assert_eq!(resolve_request_model(&json("{}")), "gpt-5");
}

#[test]
fn the_effort_is_looked_for_in_order() {
    assert_eq!(
        resolve_reasoning_effort(&json(
            r#"{"reasoning_effort":"high","reasoning":{"effort":"low"},"model":"gpt-5-medium"}"#
        )),
        "high"
    );
    assert_eq!(
        resolve_reasoning_effort(&json(
            r#"{"reasoning":{"effort":"low"},"model":"gpt-5-medium"}"#
        )),
        "low"
    );
    assert_eq!(
        resolve_reasoning_effort(&json(r#"{"model":"gpt-5-HIGH"}"#)),
        "high"
    );
}

#[test]
fn a_summary_is_chosen_by_the_backend_unless_it_is_named() {
    let s = resolve_reasoning_summary(&json("{}"));
    assert_eq!(s.unwrap().to_value(), "auto");
    assert!(resolve_reasoning_summary(&json(r#"{"reasoning":{"summary":null}}"#)).is_none());
    let s = resolve_reasoning_summary(&json(r#"{"reasoning":{"summary":"detailed"}}"#));
    assert_eq!(s.unwrap().to_value(), "detailed");
}

#[test]
fn instructions_and_first_user_text_are_found() {
    let r = json(
        r#"{"messages":[{"role":"system","content":"one"},{"role":"user","content":"two"},{"role":"user","content":"three"}]}"#,
    );
    assert_eq!(extract_instructions(&r), "one");
    assert_eq!(extract_first_user_text(&r), "two");
}

#[test]
fn arguments_are_text() {
    assert_eq!(extract_arguments_string(None), "");
    assert_eq!(extract_arguments_string(Some(&json(r#""{}""#))), "{}");
    assert_eq!(extract_arguments_string(Some(&json(r#"{"a":1}"#))), r#"{"a":1}"#);
}

#[test]
fn names_are_replaced_once_and_for_all() {
    assert_eq!(replace_names("Zed and Cursor"), "Codex and Codex");
    assert_eq!(replace_names("nothing here"), "nothing here");
    let once = replace_names("Zed Zed");
    assert_eq!(replace_names(&once), once);
}

#[test]
fn a_text_has_one_uuid() {
    let a = hash_to_uuid("payload");
    assert_eq!(a, "239f59ed-55e7-57c7-b147-cf55ad0c1b03");
    assert_eq!(a, hash_to_uuid("payload"));
    assert_ne!(a, hash_to_uuid("Payload"));
    assert_eq!(a.len(), 36);
    assert_ne!(a, "payload");
    assert!(uuid::Uuid::parse_str(&a).is_ok());
}

#[test]
fn the_cache_key_depends_on_its_parts() {
    let a = derive_prompt_cache_key("m", "i", "u");
    assert_eq!(a, derive_prompt_cache_key("m", "i", "u"));
    assert_ne!(a, derive_prompt_cache_key("m2", "i", "u"));
    assert_ne!(a, derive_prompt_cache_key("m", "i2", "u"));
    assert_ne!(a, derive_prompt_cache_key("m", "i", "u2"));
}

#[test]
fn the_uuid_of_a_digest_is_its_first_half() {
    let mut digest: Vec<u8> = (0..32).collect();
    assert_eq!(format_uuid(&digest), "00010203-0405-5607-8809-0a0b0c0d0e0f");
    digest[16] = 99;
    assert_eq!(format_uuid(&digest), "00010203-0405-5607-8809-0a0b0c0d0e0f");
}

#[test]
fn the_effort_of_a_name_is_what_normalizing_strips() {
    for (model, want) in [
        ("gpt-6-astra-ultra", "ultra"),
        ("gpt-5.6-luna-MAX", "max"),
        ("gpt-5.2-high", "high"),
        ("gpt-5.1-codex-max", ""),
        ("-high", "high"),
        ("gpt-5", ""),
    ] {
        let request = json(&format!(r#"{{"model":"{model}"}}"#));
        assert_eq!(resolve_reasoning_effort(&request), want, "{model}");
    }
    let body = chat_body(r#"{"model":"gpt-6-astra-ultra","messages":[]}"#);
    assert_eq!(body["model"], "gpt-6-astra");
    assert_eq!(body["reasoning"]["effort"], "ultra");
}

#[test]
fn no_name_reaches_over_a_line_break() {
    let a = "GitHub";
    let b = "Copilot and Zed";
    assert_eq!(
        replace_names(&format!("{a}\n{b}")),
        format!("{}\n{}", replace_names(a), replace_names(b))
    );
    assert_eq!(replace_names("GitHub\nCopilot"), "GitHub\nCodex");
}
