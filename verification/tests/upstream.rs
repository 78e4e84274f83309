use codex_proxy::credentials::Credentials;
use codex_proxy::credentials::CredentialsError;
use codex_proxy::headers::Headers;
use codex_proxy::upstream::bare_token;
use codex_proxy::upstream::codex_headers;
use codex_proxy::upstream::SendAction;
use codex_proxy::upstream::SendEvent;
use codex_proxy::upstream::SendRun;
use codex_proxy::upstream::SendStage;
use codex_proxy::upstream::UpstreamError;

fn creds(token: &str) -> Credentials {
    Credentials {
        token: token.to_string(),
        account_id: "acct-1".to_string(),
    }
}

fn get(h: &Headers, name: &str) -> String {
    h.get_str(name).expect("header")
}

#[test]
fn bare_token_strips_bearer_prefix() {
    assert_eq!(bare_token("Bearer abc"), "abc");
    assert_eq!(bare_token("bearer abc"), "abc");
    assert_eq!(bare_token("  BEARER   abc  "), "abc");
    assert_eq!(bare_token("abc"), "abc");
    assert_eq!(bare_token("Bearerabc"), "Bearerabc");
}

#[test]
fn bare_token_keeps_other_tokens() {
    assert_eq!(bare_token(""), "");
    assert_eq!(bare_token("  "), "");
    assert_eq!(bare_token("Bearer"), "Bearer");
    assert_eq!(bare_token("Basic abc"), "Basic abc");
}

#[test]
fn upstream_headers_are_complete() {
    let h = codex_headers(&creds("Bearer tok123"), "sess", "turn");
    assert_eq!(get(&h, "authorization"), "Bearer tok123");
    assert_eq!(get(&h, "version"), "0.125.0");
    assert_eq!(get(&h, "openai-beta"), "responses=experimental");
    assert_eq!(get(&h, "chatgpt-account-id"), "acct-1");
    assert_eq!(get(&h, "originator"), "codex_cli_rs");
    assert_eq!(
        get(&h, "user-agent"),
        "codex_cli_rs/0.125.0 (Mac OS 26.3.0; arm64) Apple_Terminal/466"
    );
    assert_eq!(
        get(&h, "x-codex-beta-features"),
        "multi_agent,apps,prevent_idle_sleep"
    );
    assert_eq!(get(&h, "accept"), "text/event-stream");
    assert_eq!(get(&h, "content-type"), "application/json");
    assert_eq!(get(&h, "session_id"), "sess");
    let turn: serde_json::Value =
        serde_json::from_str(&get(&h, "x-codex-turn-metadata")).unwrap();
    assert_eq!(turn["turn_id"], "turn");
    assert_eq!(turn["sandbox"], "none");
}

#[test]
fn retries_once_after_401_with_refresh() {
    let mut run = SendRun::new();
    match run.step(SendEvent::Fetched(Ok(creds("tok")))) {
        SendAction::Send(c) => assert_eq!(c.token, "tok"),
        _ => panic!("expected a request"),
    }
    assert!(matches!(
        run.step(SendEvent::Sent(Ok(401))),
        SendAction::Refresh
    ));
    assert!(matches!(
        run.step(SendEvent::Refreshed(Ok(()))),
        SendAction::Fetch
    ));
    match run.step(SendEvent::Fetched(Ok(creds("fresh")))) {
        SendAction::Send(c) => assert_eq!(c.token, "fresh"),
        _ => panic!("expected a request"),
    }
    assert!(matches!(
        run.step(SendEvent::Sent(Ok(200))),
        SendAction::Finish
    ));
    assert_eq!(run.stage, SendStage::Over);
}

#[test]
fn persistent_401_passes_through() {
    let mut run = SendRun::new();
    run.step(SendEvent::Fetched(Ok(creds("tok"))));
    run.step(SendEvent::Sent(Ok(401)));
    run.step(SendEvent::Refreshed(Ok(())));
    run.step(SendEvent::Fetched(Ok(creds("tok"))));
    assert!(matches!(
        run.step(SendEvent::Sent(Ok(401))),
        SendAction::Finish
    ));
    assert_eq!(run.stage, SendStage::Over);
}

#[test]
fn other_statuses_are_handed_on_at_once() {
    for status in [200, 400, 403, 429, 500] {
        let mut run = SendRun::new();
        run.step(SendEvent::Fetched(Ok(creds("tok"))));
        assert!(matches!(
            run.step(SendEvent::Sent(Ok(status))),
            SendAction::Finish
        ));
    }
}

#[test]
fn every_failure_ends_the_run() {
    let mut run = SendRun::new();
    match run.step(SendEvent::Fetched(Err(CredentialsError::OAuthUnsupported))) {
        SendAction::Fail(e) => {
            assert!(matches!(e, UpstreamError::Credentials(_)));
            assert_eq!(
                e.message(),
                "failed to get credentials: credential store does not support OAuth operations"
            );
        }
        _ => panic!("expected a failure"),
    }

    let mut run = SendRun::new();
    run.step(SendEvent::Fetched(Ok(creds("tok"))));
    match run.step(SendEvent::Sent(Err("no route".to_string()))) {
        SendAction::Fail(e) => assert_eq!(e.message(), "failed to send request: no route"),
        _ => panic!("expected a failure"),
    }

    let mut run = SendRun::new();
    run.step(SendEvent::Fetched(Ok(creds("tok"))));
    run.step(SendEvent::Sent(Ok(401)));
    let gone = CredentialsError::Refresh("gone".to_string());
    match run.step(SendEvent::Refreshed(Err(gone))) {
        SendAction::Fail(e) => assert_eq!(
            e.message(),
            "token expired and refresh failed: token refresh failed: gone"
        ),
        _ => panic!("expected a failure"),
    }
    assert_eq!(run.stage, SendStage::Over);
}
