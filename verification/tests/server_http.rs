use codex_proxy::config::ProxyMode;
use codex_proxy::credentials::Credentials;
use codex_proxy::credentials::CredentialsError;
use codex_proxy::credentials::EnvCredentials;
use codex_proxy::credentials::OAuthCredentials;
use codex_proxy::headers::Headers;
use codex_proxy::relay::pass_through_sse_stream;
use codex_proxy::relay::rewrite_sse_stream;
use codex_proxy::request::Prompts;
use codex_proxy::server::admin;
use codex_proxy::server::admin::Held;
use codex_proxy::server::admin::UpdateCredentialsBody;
use codex_proxy::server::chat;
use codex_proxy::server::chat::ChatAnswer;
use codex_proxy::server::error::ApiError;
use codex_proxy::server::middleware::admin_auth;
use codex_proxy::server::misc;
use codex_proxy::server::misc::Endpoint;
use codex_proxy::server::misc::Method;
use codex_proxy::server::responses;
use codex_proxy::server::responses::ResponsesAnswer;
use codex_proxy::server::stream::is_event_stream;
use codex_proxy::server::stream::mirror_response;
use codex_proxy::server::stream::relay_headers;
use codex_proxy::server::stream::sanitized_headers;
use codex_proxy::upstream::UpstreamError;
use serde_json::Value;

const KEY: &str = "test-admin-key";

fn headers(pairs: &[(&str, &str)]) -> Headers {
    let mut h = Headers::new();
    for (k, v) in pairs {
        h.append(k, v.as_bytes().to_vec());
    }
    h
}

fn prompts() -> Prompts {
    Prompts {
        codex_instructions_prefix: "prefix".to_string(),
        inverse_prompt: "inverse".to_string(),
    }
}

fn json(text: &str) -> Value {
    serde_json::from_str(text).expect("valid json")
}

fn concat_events(events: &[&str]) -> Vec<u8> {
    events
        .iter()
        .map(|e| format!("data: {e}\n\n"))
        .collect::<String>()
        .into_bytes()
}

fn fixture() -> Vec<u8> {
    concat_events(&[
        r#"{"type":"response.created","sequence_number":0,"response":{"id":"resp_test1"}}"#,
        r#"{"type":"response.output_text.delta","sequence_number":1,"delta":"Hello"}"#,
        r#"{"type":"response.output_text.delta","sequence_number":2,"delta":" world"}"#,
        r#"{"type":"response.completed","sequence_number":3,"response":{"usage":{"input_tokens":10,"output_tokens":5,"total_tokens":15}}}"#,
        "[DONE]",
    ])
}

fn status(r: Result<(), ApiError>) -> u16 {
    match r {
        Ok(()) => 200,
        Err(e) => e.into_response().0,
    }
}

// ---- access ----

#[test]
fn admin_gate_returns_500_when_key_unset() {
    let h = headers(&[("authorization", "Bearer test-admin-key")]);
    let routes = misc::routes(ProxyMode::Backend);
    for (method, path) in [
        (Method::Post, "/v1/chat/completions"),
        (Method::Post, "/v1/responses"),
        (Method::Post, "/admin/credentials"),
        (Method::Get, "/admin/credentials/status"),
    ] {
        let route = routes
            .iter()
            .find(|r| r.method == method && r.path == path)
            .unwrap_or_else(|| panic!("no route {path}"));
        assert!(route.gated, "{path}");
        for key in [None, Some("")] {
            for h in [&h, &Headers::new()] {
                let r = admin_auth(key, h);
                assert!(matches!(r, Err(ApiError::AdminNotConfigured)), "{path}");
                assert_eq!(status(r), 500, "{path}");
            }
        }
    }
}

#[test]
fn admin_gate_accepts_bearer_and_x_api_key_rejects_bad() {
    let auth = |pairs: &[(&str, &str)]| admin_auth(Some(KEY), &headers(pairs));
    // Bearer accepted.
    assert!(auth(&[("authorization", "Bearer test-admin-key")]).is_ok());
    assert!(auth(&[("authorization", "bEARER test-admin-key")]).is_ok());
    // X-API-Key accepted.
    assert!(auth(&[("X-API-Key", KEY)]).is_ok());
    assert!(auth(&[("authorization", ""), ("x-api-key", KEY)]).is_ok());
    // Wrong key.
    assert_eq!(status(auth(&[("authorization", "Bearer wrong")])), 401);
    assert_eq!(status(auth(&[("x-api-key", "test-admin-kex")])), 401);
    // Malformed Authorization.
    for bad in [
        "garbage",
        "Bearer  test-admin-key",
        "Bearer test-admin-key ",
        "Basic test-admin-key",
    ] {
        match auth(&[("authorization", bad), ("x-api-key", KEY)]) {
            Err(e) => assert_eq!(e.message(), "Invalid Authorization header format"),
            Ok(()) => panic!("accepted {bad}"),
        }
    }
    // No credentials at all.
    let none = auth(&[]);
    match &none {
        Err(e) => assert_eq!(e.message(), "Unauthorized"),
        Ok(()) => panic!("accepted"),
    }
    assert_eq!(status(none), 401);
}

// ---- open endpoints ----

#[test]
fn health_and_not_found() {
    assert_eq!(misc::health().to_value(), json(r#"{"status": "ok"}"#));
    let (status, body) = misc::not_found();
    assert_eq!(status, 404);
    assert_eq!(body.to_value(), json(r#"{"error": "not found"}"#));
}

#[test]
fn the_modes_have_their_routes() {
    let backend = misc::routes(ProxyMode::Backend);
    let router = misc::routes(ProxyMode::Router);
    let find = |routes: &[misc::Route], path: &str| {
        routes.iter().find(|r| r.path == path).map(|r| (r.endpoint, r.gated))
    };
    assert_eq!(
        find(&backend, "/v1/responses"),
        Some((Endpoint::Responses, true))
    );
    assert_eq!(
        find(&backend, "/admin/credentials"),
        Some((Endpoint::UpdateCredentials, true))
    );
    assert_eq!(
        find(&router, "/v1/responses"),
        Some((Endpoint::Proxy, true))
    );
    assert_eq!(find(&router, "/admin/credentials"), None);
    assert_eq!(find(&router, "/admin/credentials/status"), None);
    for routes in [&backend, &router] {
        assert_eq!(find(routes, "/health"), Some((Endpoint::Health, false)));
        assert_eq!(find(routes, "/v1/models"), Some((Endpoint::Models, false)));
        assert_eq!(find(routes, "/metrics"), Some((Endpoint::Metrics, false)));
    }
}

// ---- chat completions ----

#[test]
fn chat_streaming_happy_path() {
    let body =
        br#"{"model":"gpt-5.1-codex","stream":true,"messages":[{"role":"user","content":"hi"}]}"#;
    let plan = match chat::chat_completions(&Headers::new(), body, &prompts()) {
        Ok(p) => p,
        Err(e) => panic!("{}", e.message()),
    };
    assert!(plan.stream);
    assert_eq!(plan.model, "gpt-5.1-codex");
    assert_eq!(plan.message_count, 1);
    assert_eq!(plan.conversation_key_source, "head_hash");
    assert_eq!(plan.conversation_key.len(), 36);
    assert_eq!(json(&plan.body)["model"], "gpt-5.1-codex");
    assert_eq!(json(&plan.body)["stream"], true);
    assert_eq!(chat::answer(200, plan.stream), ChatAnswer::Relay);

    let h = relay_headers(&headers(&[
        ("content-type", "text/event-stream"),
        ("Cache-Control", "private"),
        ("x-request-id", "r"),
    ]));
    assert_eq!(
        h.get_str("content-type").unwrap(),
        "text/event-stream; charset=utf-8"
    );
    assert_eq!(h.get_str("cache-control").unwrap(), "no-cache");
    assert_eq!(h.get_str("x-request-id").unwrap(), "r");
    assert_eq!(h.list.len(), 3);

    let (out, result) = rewrite_sse_stream(&fixture(), &plan.model);
    assert!(result.is_ok());
    let body = String::from_utf8(out).expect("valid utf8");
    assert!(body.contains(r#""role":"assistant""#), "body: {body}");
    assert!(body.contains(r#""content":"Hello""#), "body: {body}");
    assert!(body.contains("chat.completion.chunk"), "body: {body}");
    assert!(body.ends_with("data: [DONE]\n\n"), "body: {body}");
}

#[test]
fn chat_non_streaming_buffers_to_single_completion() {
    let body = br#"{"model":"gpt-5.1-codex","messages":[{"role":"user","content":"hi"}]}"#;
    let plan = match chat::chat_completions(&Headers::new(), body, &prompts()) {
        Ok(p) => p,
        Err(e) => panic!("{}", e.message()),
    };
    assert!(!plan.stream);
    assert_eq!(chat::answer(200, plan.stream), ChatAnswer::Gather);
    let completion = match chat::gather(&fixture(), &plan.model) {
        Ok(j) => j.to_value(),
        Err(e) => panic!("{}", e.message()),
    };
    assert_eq!(completion["object"], "chat.completion");
    assert_eq!(completion["id"], "chatcmpl-resp_test1");
    assert_eq!(completion["choices"][0]["message"]["role"], "assistant");
    assert_eq!(
        completion["choices"][0]["message"]["content"],
        "Hello world"
    );
    assert_eq!(completion["choices"][0]["finish_reason"], "stop");
    assert_eq!(completion["usage"]["prompt_tokens"], 10);
    assert_eq!(completion["usage"]["completion_tokens"], 5);
}

#[test]
fn a_broken_stream_is_an_internal_error() {
    for r in [
        chat::gather(b"data: {not json\n\n", "gpt-5"),
        responses::gather(b"data: {\"type\":\"response.created\"}\n\n"),
    ] {
        match r {
            Ok(_) => panic!("accepted"),
            Err(e) => {
                assert_eq!(e.message(), "Failed to process streaming response");
                assert_eq!(e.into_response().0, 500);
            }
        }
    }
}

#[test]
fn only_an_explicit_true_asks_for_a_stream() {
    for (body, want) in [
        (&br#"{"stream":true}"#[..], true),
        (br#"{"stream":false}"#, false),
        (br#"{"stream":"true"}"#, false),
        (br#"{}"#, false),
    ] {
        match chat::chat_completions(&Headers::new(), body, &prompts()) {
            Ok(p) => assert_eq!(p.stream, want),
            Err(e) => panic!("{}", e.message()),
        }
        match responses::responses(body) {
            Ok(p) => assert_eq!(p.client_wants_stream, want),
            Err(e) => panic!("{}", e.message()),
        }
    }
}

#[test]
fn a_request_without_a_head_has_no_key() {
    match chat::chat_completions(&Headers::new(), b"{}", &prompts()) {
        Ok(p) => {
            assert_eq!(p.conversation_key, "");
            assert_eq!(p.conversation_key_source, "none");
            assert_eq!(p.message_count, 0);
        }
        Err(e) => panic!("{}", e.message()),
    }
}

// ---- mirroring ----

#[test]
fn upstream_error_status_and_body_mirrored() {
    assert_eq!(chat::answer(429, true), ChatAnswer::Mirror);
    assert_eq!(chat::answer(201, false), ChatAnswer::Mirror);
    let body = br#"{"error":{"message":"rate limited"}}"#;
    let h = headers(&[("content-type", "application/json")]);
    let r = mirror_response(429, &h, Some(body.to_vec()));
    assert_eq!(r.status, 429);
    assert_eq!(r.body, body);
    assert_eq!(r.headers.get_str("content-type").unwrap(), "application/json");
}

#[test]
fn an_unreadable_body_is_a_gateway_error() {
    let h = headers(&[("content-type", "text/plain"), ("x-a", "1")]);
    let r = mirror_response(200, &h, None);
    assert_eq!(r.status, 502);
    assert_eq!(
        json(std::str::from_utf8(&r.body).unwrap()),
        json(r#"{"error":"Failed to read upstream response body"}"#)
    );
    assert_eq!(r.headers.get_str("content-type").unwrap(), "application/json");
    assert!(r.headers.get("x-a").is_none());
}

#[test]
fn set_cookie_is_not_mirrored_downstream() {
    let h = headers(&[
        ("Set-Cookie", "s=1"),
        ("Content-Length", "3"),
        ("Transfer-Encoding", "chunked"),
        ("Connection", "close"),
        ("Content-Encoding", "gzip"),
        ("X-Codex-Primary-Used-Percent", "5"),
        ("x-twice", "1"),
        ("x-twice", "2"),
    ]);
    let out = sanitized_headers(&h);
    let names: Vec<&str> = out.list.iter().map(|h| h.name.as_str()).collect();
    assert_eq!(names, ["x-codex-primary-used-percent", "x-twice", "x-twice"]);
    assert_eq!(out.list[2].value, b"2");
}

#[test]
fn event_streams_are_told_by_their_media_type() {
    for (t, want) in [
        ("text/event-stream", true),
        ("Text/Event-Stream; charset=utf-8", true),
        (" text/event-stream ;x", true),
        ("application/json", false),
        ("text/event-streams", false),
        ("", false),
    ] {
        assert_eq!(is_event_stream(&headers(&[("content-type", t)])), want, "{t}");
    }
    assert!(!is_event_stream(&Headers::new()));
}

// ---- responses ----

#[test]
fn responses_passes_through_without_done_injection() {
    let plan = match responses::responses(
        br#"{"model":"gpt-5.1-codex","input":[],"stream":true}"#,
    ) {
        Ok(p) => p,
        Err(e) => panic!("{}", e.message()),
    };
    assert!(plan.client_wants_stream);
    assert_eq!(plan.model, "gpt-5.1-codex");
    assert_eq!(json(&plan.body)["model"], "gpt-5.1-codex");
    let h = headers(&[("content-type", "text/event-stream")]);
    assert_eq!(responses::answer(200, &h, true), ResponsesAnswer::Relay);
    assert_eq!(responses::answer(200, &h, false), ResponsesAnswer::Gather);
    let other = headers(&[("content-type", "application/json")]);
    assert_eq!(
        responses::answer(200, &other, true),
        ResponsesAnswer::MirrorSuccess
    );

    let sse = concat_events(&[
        r#"{"type":"response.created","response":{"id":"r1"}}"#,
        r#"{"type":"response.completed","response":{}}"#,
    ]);
    let body = String::from_utf8(pass_through_sse_stream(&sse)).expect("valid utf8");
    assert!(body.contains("response.created"), "body: {body}");
    assert!(body.contains("response.completed"), "body: {body}");
    assert!(!body.contains("[DONE]"), "body: {body}");
}

#[test]
fn responses_always_asks_the_backend_for_a_stream() {
    match responses::responses(br#"{"model":"gpt-5","stream":false}"#) {
        Ok(p) => {
            assert!(!p.client_wants_stream);
            assert_eq!(json(&p.body)["stream"], true);
        }
        Err(e) => panic!("{}", e.message()),
    }
    match responses::responses(b"[]") {
        Ok(p) => {
            assert_eq!(p.body, "[]");
            assert_eq!(p.model, "");
        }
        Err(e) => panic!("{}", e.message()),
    }
}

#[test]
fn responses_error_mirrored() {
    let h = headers(&[("content-type", "text/event-stream")]);
    assert_eq!(
        responses::answer(400, &h, true),
        ResponsesAnswer::MirrorError
    );
    assert_eq!(
        responses::answer(503, &h, false),
        ResponsesAnswer::MirrorError
    );
    let json_headers = headers(&[("content-type", "application/json")]);
    let reply = mirror_response(
        400,
        &json_headers,
        Some(br#"{"error":"bad input"}"#.to_vec()),
    );
    assert_eq!(reply.status, 400);
    let body: Value = serde_json::from_slice(&reply.body).expect("valid json");
    assert_eq!(body, json(r#"{"error":"bad input"}"#));
}

#[test]
fn a_responses_stream_is_gathered() {
    let out = responses::gather(
        b"data: {\"type\":\"response.completed\",\"response\":{\"id\":\"r1\"}}\n\n",
    );
    match out {
        Ok(j) => assert_eq!(j.to_value()["id"], "r1"),
        Err(e) => panic!("{}", e.message()),
    }
}

// ---- credentials ----

#[test]
fn admin_credentials_unsupported_on_env_store() {
    let body = UpdateCredentialsBody {
        access_token: "a".to_string(),
        refresh_token: "r".to_string(),
        expires_at: 123,
        user_id: None,
    };
    assert!(body.check().is_ok());
    let store = EnvCredentials::new("tok".to_string(), "acct-1".to_string());
    let stored = store.update_tokens(
        body.access_token,
        body.refresh_token,
        body.expires_at,
        body.user_id,
    );
    match admin::update_credentials(stored) {
        Ok(_) => panic!("accepted"),
        Err(e) => {
            assert_eq!(
                e.message(),
                "Credentials fetcher does not support OAuth token updates"
            );
            assert_eq!(e.into_response().0, 400);
        }
    }

    let status = admin::credentials_status(Held::Basic(store.get_credentials()), 0).to_value();
    assert_eq!(status["type"], "basic");
    assert_eq!(status["hasCredentials"], true);
    assert_eq!(status["userID"], "acct-1");
}

#[test]
fn pushed_tokens_are_complete() {
    let body = |a: &str, r: &str, e: i64| UpdateCredentialsBody {
        access_token: a.to_string(),
        refresh_token: r.to_string(),
        expires_at: e,
        user_id: None,
    };
    for bad in [body("", "r", 1), body("a", "", 1), body("a", "r", 0)] {
        match bad.check() {
            Ok(()) => panic!("accepted"),
            Err(e) => {
                assert_eq!(
                    e.message(),
                    "Missing required fields: accessToken, refreshToken, expiresAt"
                );
                assert_eq!(e.into_response().0, 400);
            }
        }
    }
    match admin::update_credentials(Ok(())) {
        Ok(j) => assert_eq!(
            j.to_value(),
            json(r#"{"status":"success","message":"Credentials updated successfully"}"#)
        ),
        Err(e) => panic!("{}", e.message()),
    }
    match admin::update_credentials(Err(CredentialsError::Storage("full".to_string()))) {
        Ok(_) => panic!("accepted"),
        Err(e) => assert_eq!(e.message(), "Failed to update credentials"),
    }
}

#[test]
fn the_status_counts_whole_minutes() {
    let held = |expires_at_ms: i64| {
        Held::OAuth(Ok(OAuthCredentials {
            access_token: "secret-token".to_string(),
            refresh_token: "secret-refresh".to_string(),
            expires_at_ms,
            user_id: "acct-1".to_string(),
        }))
    };
    let now = 1_000_000_000;
    for (left, minutes, expired, soon) in [
        (2 * 3_600_000, 120, false, false),
        (61 * 60_000 - 1, 60, false, true),
        (59_999, 0, true, true),
        (-59_999, 0, true, true),
        (-60_000, -1, true, true),
    ] {
        let s = admin::credentials_status(held(now + left), now).to_value();
        assert_eq!(s["type"], "oauth");
        assert_eq!(s["hasCredentials"], true);
        assert_eq!(s["userID"], "acct-1");
        assert_eq!(s["expiresAt"], now + left);
        assert_eq!(s["minutesUntilExpiry"], minutes);
        assert_eq!(s["isExpired"], expired);
        assert_eq!(s["needsRefreshSoon"], soon);
        assert!(!s.to_string().contains("secret"));
    }
}

#[test]
fn the_status_tells_of_failures() {
    let gone = || CredentialsError::Unavailable("gone".to_string());
    let s = admin::credentials_status(Held::OAuth(Err(gone())), 0).to_value();
    assert_eq!(
        s,
        json(r#"{"type":"oauth","hasCredentials":false,"error":"credentials unavailable: gone"}"#)
    );
    let s = admin::credentials_status(Held::Basic(Err(gone())), 0).to_value();
    assert_eq!(s["type"], "basic");
    let empty = Credentials {
        token: String::new(),
        account_id: String::new(),
    };
    let s = admin::credentials_status(Held::Basic(Ok(empty)), 0).to_value();
    assert_eq!(s["hasCredentials"], false);
}

// ---- errors ----

#[test]
fn invalid_json_body_is_400() {
    let r = chat::chat_completions(&Headers::new(), b"{not json", &prompts());
    match r {
        Ok(_) => panic!("accepted"),
        Err(e) => {
            let (status, body) = e.into_response();
            assert_eq!(status, 400);
            assert_eq!(
                body.to_value(),
                json(r#"{"error":"Failed to parse request body"}"#)
            );
        }
    }
    match responses::responses(b"") {
        Ok(_) => panic!("accepted"),
        Err(e) => assert_eq!(e.into_response().0, 400),
    }
}

#[test]
fn a_failed_upstream_is_503() {
    let e = ApiError::Upstream(UpstreamError::Request("no route".to_string()));
    let (status, body) = e.into_response();
    assert_eq!(status, 503);
    assert_eq!(
        body.to_value()["error"],
        "Failed to communicate with upstream API: failed to send request: no route"
    );
    let (status, body) = ApiError::AdminNotConfigured.into_response();
    assert_eq!(status, 500);
    assert_eq!(body.to_value()["error"], "Admin API not configured");
}
