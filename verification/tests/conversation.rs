use codex_proxy::conversation::resolve_conversation_key;
use codex_proxy::conversation::valid_explicit_key;
use codex_proxy::conversation::ConversationKey;
use codex_proxy::conversation::KeySource;
use codex_proxy::conversation::MAX_EXPLICIT_KEY_LEN;
use codex_proxy::headers::Headers;
use codex_proxy::json;
use codex_proxy::json::Json;

fn headers(pairs: &[(&str, &str)]) -> Headers {
    let mut h = Headers::new();
    for (k, v) in pairs {
        h.append(k, v.as_bytes().to_vec());
    }
    h
}

fn text(s: &str) -> serde_json::Value {
    serde_json::Value::String(s.to_string())
}

fn message(role: &str, content: &str) -> serde_json::Value {
    let mut m = serde_json::Map::new();
    m.insert("role".to_string(), text(role));
    m.insert("content".to_string(), text(content));
    serde_json::Value::Object(m)
}

fn req_with(model: &str, system: &str, user: &str, more: &[(&str, &str)]) -> Json {
    let mut m = serde_json::Map::new();
    m.insert("model".to_string(), text(model));
    m.insert(
        "messages".to_string(),
        serde_json::Value::Array(vec![message("system", system), message("user", user)]),
    );
    for (k, v) in more {
        m.insert(k.to_string(), text(v));
    }
    json::from_value(serde_json::Value::Object(m))
}

fn req(model: &str, system: &str, user: &str) -> Json {
    req_with(model, system, user, &[])
}

fn resolved(h: &Headers, r: &Json) -> ConversationKey {
    resolve_conversation_key(h, r).expect("resolves")
}

#[test]
fn explicit_header_is_used_verbatim() {
    let k = resolved(
        &headers(&[("x-conversation-id", "  header-id  ")]),
        &req("gpt-5.4", "sys", "hi"),
    );
    assert_eq!(k.key, "header-id"); // trimmed
    assert_eq!(k.source, KeySource::Explicit);
    assert_eq!(k.source.as_str(), "explicit");
}

#[test]
fn user_field_is_ignored_falls_through_to_head_hash() {
    // `user` is a per-end-user id, not a conversation id: it must not key the
    // conversation, which would merge separate chats.
    let r = req_with("gpt-5.4", "sys", "hi", &[("user", "user-field-id")]);
    let k = resolved(&Headers::new(), &r);
    assert_eq!(k.source, KeySource::HeadHash);
    assert_ne!(k.key, "user-field-id");
    assert_eq!(
        k.key,
        resolved(&Headers::new(), &req("gpt-5.4", "sys", "hi")).key
    );
}

#[test]
fn head_hash_resists_field_boundary_collisions() {
    // Moving a newline across the boundary of the two parts yields distinct
    // keys.
    let a = resolved(&Headers::new(), &req("gpt-5.4", "x", "y\nz"));
    let b = resolved(&Headers::new(), &req("gpt-5.4", "x\ny", "z"));
    assert_ne!(a.key, b.key);
}

#[test]
fn head_hash_is_deterministic_and_discriminating() {
    let a = resolved(&Headers::new(), &req("gpt-5.4", "sys", "hello"));
    let a2 = resolved(&Headers::new(), &req("gpt-5.4", "sys", "hello"));
    let b = resolved(&Headers::new(), &req("gpt-5.4", "sys", "different"));
    assert_eq!(a.source, KeySource::HeadHash);
    assert_eq!(a.source.as_str(), "head_hash");
    assert_eq!(a.key, a2.key, "same head, same key");
    assert_ne!(a.key, b.key, "different first user, different key");
    assert_eq!(a.key.len(), 36);
}

#[test]
fn head_hash_ignores_model() {
    // A change of model in mid-conversation must not change the key.
    let a = resolved(&Headers::new(), &req("gpt-5.4", "sys", "hello"));
    let b = resolved(&Headers::new(), &req("gpt-5.2-codex", "sys", "hello"));
    assert_eq!(a.key, b.key);
}

#[test]
fn none_when_no_head_and_no_explicit_key() {
    let r = json::parse(br#"{ "model": "gpt-5.4", "messages": [] }"#).unwrap();
    assert!(resolve_conversation_key(&Headers::new(), &r).is_none());
}

#[test]
fn oversized_explicit_key_falls_through_to_head_hash() {
    let big = "x".repeat(MAX_EXPLICIT_KEY_LEN + 1);
    let k = resolved(
        &headers(&[("x-conversation-id", big.as_str())]),
        &req("gpt-5.4", "sys", "hi"),
    );
    assert_eq!(k.source, KeySource::HeadHash);
}

#[test]
fn blank_header_falls_through_to_head_hash() {
    let k = resolved(
        &headers(&[("x-conversation-id", "  ")]),
        &req("gpt-5.4", "sys", "hi"),
    );
    assert_eq!(k.source, KeySource::HeadHash);
}

#[test]
fn explicit_keys_are_bounded_and_printable() {
    assert!(valid_explicit_key("a"));
    assert!(valid_explicit_key(&"x".repeat(256)));
    assert!(!valid_explicit_key(&"x".repeat(257)));
    // The length counts bytes.
    assert!(valid_explicit_key(&"\u{e9}".repeat(128)));
    assert!(!valid_explicit_key(&"\u{e9}".repeat(129)));
    assert!(!valid_explicit_key(""));
    for bad in ["a\nb", "a\tb", "\u{7f}", "\u{85}", "\u{9f}"] {
        assert!(!valid_explicit_key(bad), "{bad:?}");
    }
    assert!(valid_explicit_key("a\u{a0}b"));
}

#[test]
fn a_header_that_is_no_text_is_ignored() {
    let mut h = Headers::new();
    h.append("X-Conversation-Id", vec![0x61, 0xff]);
    let k = resolved(&h, &req("gpt-5.4", "sys", "hi"));
    assert_eq!(k.source, KeySource::HeadHash);
}

#[test]
fn the_first_header_of_a_name_counts() {
    let h = headers(&[("X-CONVERSATION-ID", "one"), ("x-conversation-id", "two")]);
    assert_eq!(resolved(&h, &req("m", "s", "u")).key, "one");
}

#[test]
fn later_turns_keep_the_key() {
    let turn = |more: Vec<serde_json::Value>| {
        let mut messages = vec![message("system", "sys"), message("user", "hello")];
        messages.extend(more);
        let mut m = serde_json::Map::new();
        m.insert("messages".to_string(), serde_json::Value::Array(messages));
        let body = json::from_value(serde_json::Value::Object(m));
        resolve_conversation_key(&Headers::new(), &body)
            .expect("resolves")
            .key
    };
    let first = turn(vec![]);
    let second = turn(vec![message("assistant", "hi"), message("user", "more")]);
    assert_eq!(first, second);
    assert_ne!(first, turn(vec![message("system", "other rules")]));
}
