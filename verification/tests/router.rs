use codex_proxy::affinity::redis_key;
use codex_proxy::affinity::AffinityStore;
use codex_proxy::affinity::InMemoryAffinityStore;
use codex_proxy::affinity::Pin;
use codex_proxy::conversation::resolve_conversation_key;
use codex_proxy::headers::Headers;
use codex_proxy::json;
use codex_proxy::router::proxy::classify;
use codex_proxy::router::proxy::classify_400;
use codex_proxy::router::proxy::is_retryable;
use codex_proxy::router::proxy::pod_headers;
use codex_proxy::router::proxy::target_url;
use codex_proxy::router::proxy::Attempt;
use codex_proxy::router::proxy::Primary;
use codex_proxy::router::proxy::RouteAction;
use codex_proxy::router::proxy::RouteNext;
use codex_proxy::router::proxy::RouteRun;
use codex_proxy::router::proxy::RouteSource;
use codex_proxy::router::proxy::Which;
use codex_proxy::router::refuse;
use codex_proxy::router::Account;
use codex_proxy::router::AccountError;
use codex_proxy::router::AccountPool;
use codex_proxy::router::UrlParts;
use codex_proxy::router::COOLDOWN;
use codex_proxy::server::error::ApiError;

fn pool(accounts: &str) -> AccountPool {
    match AccountPool::parse(accounts) {
        Ok(p) => p,
        Err(e) => panic!("{}", e.message()),
    }
}

fn refused(accounts: &str) -> AccountError {
    match AccountPool::parse(accounts) {
        Ok(_) => panic!("accepted: {accounts}"),
        Err(e) => e,
    }
}

// ---- the pool ----

#[test]
fn parses_account_spec() {
    let p = pool(" main=http://a:9879 , codex2=http://b:9879/ ");
    assert_eq!(p.len(), 2);
    assert!(!p.is_empty());
    assert_eq!(p.pinned("main", "").unwrap().url, "http://a:9879");
    // trailing slash trimmed
    assert_eq!(p.pinned("codex2", "").unwrap().url, "http://b:9879");
}

#[test]
fn rejects_empty_or_malformed_spec() {
    assert!(AccountPool::parse("").is_err());
    assert!(AccountPool::parse("noequals").is_err());
    assert!(AccountPool::parse("=http://x").is_err());
    assert!(AccountPool::parse("slug=").is_err());
    // URL must carry an http(s) scheme.
    assert!(AccountPool::parse("slug=ftp://x").is_err());
    assert!(AccountPool::parse("slug=host:9879").is_err());
    // Duplicate slugs are ambiguous for pin resolution.
    assert!(AccountPool::parse("main=http://a,main=http://b").is_err());
    // Duplicate URLs defeat failover.
    assert!(AccountPool::parse("main=http://a,codex2=http://a").is_err());
    // Base URL must be a bare origin (no path/query/fragment), for the request
    // path is appended.
    assert!(AccountPool::parse("slug=http://pod/v1").is_err());
    assert!(AccountPool::parse("slug=http://pod?x=1").is_err());
}

#[test]
fn refusals_say_why() {
    assert_eq!(
        refused(" , ").message(),
        "CODEX_PROXY_ACCOUNTS must list at least one slug=url account"
    );
    assert_eq!(
        refused("noequals").message(),
        "invalid account entry (want slug=url): noequals"
    );
    assert_eq!(
        refused("slug=//").message(),
        "invalid account entry (empty slug or url): slug=//"
    );
    assert_eq!(
        refused("slug=ftp://x").message(),
        "account url scheme must be http/https, got ftp: slug=ftp://x"
    );
    assert_eq!(
        refused("slug=http://pod/v1").message(),
        "account url must be a bare origin (no path/query/fragment): slug=http://pod/v1"
    );
    assert_eq!(
        refused("slug=http://pod#f").message(),
        "account url must be a bare origin (no path/query/fragment): slug=http://pod#f"
    );
    assert_eq!(
        refused("a=http://x,a=http://y").message(),
        "duplicate account slug: a"
    );
    assert_eq!(
        refused("a=http://x,b=http://x/").message(),
        "duplicate account url (http://x) — slugs must point at distinct pods"
    );
    assert!(matches!(refused("a=http://[x"), AccountError::BadUrl { .. }));
    assert!(refused("a=nourl")
        .message()
        .starts_with("invalid account url ("));
}

#[test]
fn the_parts_of_a_url_decide() {
    let account = Account {
        slug: "a".to_string(),
        url: "http://x".to_string(),
    };
    let parts = |scheme: &str, path: &str, query: Option<&str>| UrlParts {
        scheme: scheme.to_string(),
        path: path.to_string(),
        query: query.map(|q| q.to_string()),
        fragment: None,
    };
    let none = Vec::new();
    assert!(refuse(&none, "e", &account, Ok(parts("https", "/", None))).is_none());
    assert!(matches!(
        refuse(&none, "e", &account, Ok(parts("ws", "/", None))),
        Some(AccountError::BadScheme { .. })
    ));
    assert!(matches!(
        refuse(&none, "e", &account, Ok(parts("http", "/v1", None))),
        Some(AccountError::NotOrigin(_))
    ));
    assert!(matches!(
        refuse(&none, "e", &account, Ok(parts("http", "/", Some("")))),
        Some(AccountError::NotOrigin(_))
    ));
    assert!(matches!(
        refuse(&none, "e", &account, Err("bad".to_string())),
        Some(AccountError::BadUrl { .. })
    ));
    let taken = vec![account.clone()];
    assert!(matches!(
        refuse(&taken, "e", &account, Ok(parts("http", "/", None))),
        Some(AccountError::DuplicateSlug(_))
    ));
}

#[test]
fn pinned_returns_none_for_unknown_or_cooling() {
    let mut p = pool("main=http://a,codex2=http://b");
    assert!(p.pinned("nope", "").is_none());
    assert!(p.pinned("main", "").is_some());
    p.cooldown("main");
    assert!(
        p.pinned("main", "").is_none(),
        "cooling slug is not a valid pin"
    );
    assert!(p.pinned("codex2", "").is_some());
}

#[test]
fn pick_skips_cooling_and_excluded() {
    let mut p = pool("a=http://a,b=http://b,c=http://c");
    p.cooldown("a");
    // Over several picks, never returns the cooling account 'a'.
    for _ in 0..10 {
        assert_ne!(p.pick(None, "").unwrap().slug, "a");
    }
    // Excluding 'b' while 'a' cools leaves only 'c' as healthy.
    assert_eq!(p.pick(Some("b"), "").unwrap().slug, "c");
}

#[test]
fn pick_falls_back_when_all_cooling() {
    let mut p = pool("a=http://a,b=http://b");
    p.cooldown("a");
    p.cooldown("b");
    // No healthy accounts, but a pick is still returned.
    assert!(p.pick(None, "").is_some());
}

#[test]
fn model_cooldown_is_scoped_to_the_pairing_not_the_whole_account() {
    let mut p = pool("a=http://a,b=http://b");
    p.cooldown_model("a", "gpt-6-astra");
    // "a" is unusable for the tier-gated model...
    assert!(p.pinned("a", "gpt-6-astra").is_none());
    // ...but still perfectly fine for any other model, unlike the
    // account-wide `cooldown` above.
    assert!(p.pinned("a", "gpt-5.6-luna").is_some());
    assert!(p.pinned("a", "").is_some());
}

#[test]
fn cooldown_model_is_a_noop_for_an_empty_model() {
    let mut p = pool("a=http://a");
    p.cooldown_model("a", "");
    assert!(
        p.pinned("a", "").is_some(),
        "an empty model must never be cooled down"
    );
}

#[test]
fn pick_skips_a_model_tier_gate_but_still_picks_the_account_for_other_models() {
    let mut p = pool("a=http://a,b=http://b");
    p.cooldown_model("a", "gpt-6-astra");
    // Every pick for the tier-gated model must land on "b".
    for _ in 0..10 {
        assert_eq!(p.pick(None, "gpt-6-astra").unwrap().slug, "b");
    }
    // But "a" is still in rotation for a different model.
    let mut saw_a = false;
    for _ in 0..10 {
        if p.pick(None, "gpt-5.6-luna").unwrap().slug == "a" {
            saw_a = true;
        }
    }
    assert!(saw_a, "model cooldown must not leak into other models");
}

#[test]
fn pick_never_ignores_a_model_tier_gate_even_when_all_cool() {
    let mut p = pool("a=http://a,b=http://b");
    p.cooldown_model("a", "gpt-6-astra");
    p.cooldown_model("b", "gpt-6-astra");
    // A pick is still returned so a request is never dropped for lack of one.
    assert!(p.pick(None, "gpt-6-astra").is_some());
}

#[test]
fn a_cooldown_lasts_a_minute() {
    let mut p = pool("a=http://a,b=http://b");
    p.cooldown_at("a", 5);
    assert!(p.pinned_at("a", "", 5).is_none());
    assert!(p.pinned_at("a", "", 5 + COOLDOWN - 1).is_none());
    assert!(p.pinned_at("a", "", 5 + COOLDOWN).is_some());
    p.cooldown_model_at("b", "m", 0);
    p.cooldown_model_at("b", "m", 10);
    assert!(p.pinned_at("b", "m", COOLDOWN).is_none());
    assert!(p.pinned_at("b", "m", COOLDOWN + 10).is_some());
    assert_eq!(p.model_cooldown_until.len(), 1);
    assert_eq!(COOLDOWN, 60 * 1_000_000_000);
}

#[test]
fn healthy_accounts_take_turns() {
    let mut p = pool("a=http://a,b=http://b,c=http://c");
    let picks: Vec<String> = (0..6).map(|_| p.pick_at(None, "", 0).unwrap().slug).collect();
    assert_eq!(picks, ["a", "b", "c", "a", "b", "c"]);
    p.next = usize::MAX;
    assert!(p.pick_at(None, "", 0).is_some());
    assert_eq!(p.next, 0);
}

#[test]
fn a_cooldown_is_ignored_before_a_missing_model() {
    let mut p = pool("a=http://a,b=http://b");
    p.cooldown_at("b", 0);
    p.cooldown_model_at("a", "m", 0);
    for _ in 0..4 {
        assert_eq!(p.pick_at(None, "m", 1).unwrap().slug, "b");
    }
    // Excluding the only suitable one leaves the first of all.
    assert_eq!(p.pick_at(Some("b"), "m", 1).unwrap().slug, "a");
}

// ---- the store of pins ----

#[test]
fn pins_are_kept_and_dropped() {
    let mut s = InMemoryAffinityStore::default();
    assert!(s.get("k").is_none());
    let pin = Pin {
        slug: "a".to_string(),
        model: "m".to_string(),
    };
    s.put("k", &pin);
    s.put("other", &pin);
    let found = s.get("k").unwrap();
    assert_eq!((found.slug.as_str(), found.model.as_str()), ("a", "m"));
    s.clear("k");
    assert!(s.get("k").is_none());
    assert!(s.get("other").is_some());
    assert_eq!(redis_key("k"), "conv:k");
}

// ---- one request ----

#[test]
fn statuses_are_classified() {
    assert!(is_retryable(429));
    assert!(is_retryable(500));
    assert!(is_retryable(599));
    assert!(!is_retryable(200));
    assert!(!is_retryable(400));
    assert!(!is_retryable(600));
    assert_eq!(classify(answered(200)), Primary::Terminal);
    assert_eq!(classify(answered(404)), Primary::Terminal);
    assert_eq!(classify(answered(400)), Primary::Terminal);
    assert_eq!(
        classify(answered(503)),
        Primary::Retry {
            answered: true,
            tier_gate: false
        }
    );
    assert_eq!(
        classify(Attempt::Unreachable),
        Primary::Retry {
            answered: false,
            tier_gate: false
        }
    );
    assert_eq!(
        classify(GATED),
        Primary::Retry {
            answered: true,
            tier_gate: true
        }
    );
}

#[test]
fn a_tier_gate_is_found_in_any_body() {
    let mut h = Headers::new();
    h.append("set-cookie", b"s=1".to_vec());
    h.append("x-a", b"1".to_vec());
    let body = b"\xff{\"detail\":\"The 'x' model is not supported when using Codex with a ChatGPT account.\"}";
    let b = classify_400(&h, body.to_vec());
    assert!(b.tier_gate);
    let r = b.into_response();
    assert_eq!(r.status, 400);
    assert_eq!(r.body, body);
    assert!(r.headers.get("set-cookie").is_none());
    assert!(r.headers.get("x-a").is_some());
    assert!(!classify_400(&h, b"bad request".to_vec()).tier_gate);
    assert!(!classify_400(&h, Vec::new()).tier_gate);
}

const GATED: Attempt = Attempt::Answered {
    status: 400,
    tier_gate: true,
};

fn answered(status: u16) -> Attempt {
    Attempt::Answered {
        status,
        tier_gate: false,
    }
}

fn convo() -> &'static [u8] {
    br#"{"model":"gpt-5.4","messages":[{"role":"system","content":"sys"},{"role":"user","content":"hello router"}]}"#
}

fn open(has_store: bool) -> RouteRun {
    match RouteRun::open(true, Some("key"), has_store, &Headers::new(), convo()) {
        Ok(run) => run,
        Err(e) => panic!("{}", e.message()),
    }
}

fn sent_to(action: &RouteAction) -> String {
    match &action.next {
        RouteNext::Send(a) => a.slug.clone(),
        _ => panic!("expected a request"),
    }
}

fn answer(action: &RouteAction) -> (Which, String, RouteSource) {
    match &action.next {
        RouteNext::Answer {
            which,
            slug,
            source,
        } => (*which, slug.clone(), *source),
        _ => panic!("expected an answer"),
    }
}

fn failure(action: RouteAction) -> String {
    match action.next {
        RouteNext::Fail(e) => e.message(),
        _ => panic!("expected a failure"),
    }
}

/// Puts and clears pins as an action says.
fn keep(store: &mut InMemoryAffinityStore, action: &RouteAction) {
    if let Some(key) = &action.clear {
        store.clear(key);
    }
    if let Some((key, pin)) = &action.put {
        store.put(key, pin);
    }
}

/// One turn of a conversation.
fn turn(
    p: &mut AccountPool,
    store: &mut InMemoryAffinityStore,
    first: Attempt,
    second: Attempt,
) -> RouteAction {
    let mut run = open(true);
    let key = run.pin_key().unwrap();
    let pinned = store.get(&key).map(|pin| pin.slug);
    let action = run.send_first(p, pinned.as_deref(), 0);
    assert!(matches!(action.next, RouteNext::Send(_)));
    let action = run.settle(p, first, 0);
    keep(store, &action);
    if matches!(action.next, RouteNext::Send(_)) {
        let action = run.settle(p, second, 0);
        keep(store, &action);
        return action;
    }
    action
}

#[test]
fn proxies_to_an_account_pins_it_and_reuses_the_pin() {
    let mut p = pool("a=http://a,b=http://b");
    let mut store = InMemoryAffinityStore::default();
    let first = turn(&mut p, &mut store, answered(200), answered(200));
    assert_eq!(
        answer(&first),
        (Which::First, "a".to_string(), RouteSource::New)
    );

    // The conversation is now pinned to "a".
    let request = json::parse(convo()).unwrap();
    let key = resolve_conversation_key(&Headers::new(), &request)
        .unwrap()
        .key;
    assert_eq!(store.get(&key).unwrap().slug, "a");
    assert_eq!(store.get(&key).unwrap().model, "gpt-5.4");

    // The next turn reuses the pin.
    let second = turn(&mut p, &mut store, answered(200), answered(200));
    assert_eq!(
        answer(&second),
        (Which::First, "a".to_string(), RouteSource::Pinned)
    );
    assert_eq!(RouteSource::Pinned.label(), "pinned");
}

#[test]
fn repins_to_a_healthy_account_on_429() {
    let mut p = pool("a=http://a,b=http://b");
    let mut store = InMemoryAffinityStore::default();
    let action = turn(&mut p, &mut store, answered(429), answered(200));
    assert_eq!(
        answer(&action),
        (Which::Second, "b".to_string(), RouteSource::Repinned)
    );
    let key = open(true).pin_key().unwrap();
    assert_eq!(store.get(&key).unwrap().slug, "b");
    assert!(p.pinned_at("a", "", 0).is_none(), "the failed account cools");
}

#[test]
fn forwards_w3c_trace_context_to_the_pod() {
    let mut inbound = Headers::new();
    let trace = b"00-0af7651916cd43dd8448eb211c80319c-b7ad6b7169203331-01";
    inbound.append("traceparent", trace.to_vec());
    inbound.append("cookie", b"c=1".to_vec());
    let h = pod_headers("key", &inbound);
    assert_eq!(h.get("traceparent").unwrap(), trace);
    assert!(h.get("tracestate").is_none());
    assert!(h.get("cookie").is_none());
    assert_eq!(h.get_str("authorization").unwrap(), "Bearer key");
    assert_eq!(h.get_str("content-type").unwrap(), "application/json");
    assert_eq!(
        target_url("http://a:1", "/v1/responses?x=1"),
        "http://a:1/v1/responses?x=1"
    );
}

#[test]
fn routes_statelessly_without_an_affinity_store() {
    let mut p = pool("a=http://a");
    let mut run = open(false);
    assert!(run.pin_key().is_none());
    assert_eq!(sent_to(&run.send_first(&mut p, None, 0)), "a");
    let action = run.settle(&mut p, answered(200), 0);
    assert!(action.put.is_none());
    assert_eq!(
        answer(&action),
        (Which::First, "a".to_string(), RouteSource::Fallback)
    );
}

#[test]
fn a_pin_that_cools_is_not_followed() {
    let mut p = pool("a=http://a,b=http://b");
    p.cooldown_at("a", 0);
    let mut run = open(true);
    assert_eq!(sent_to(&run.send_first(&mut p, Some("a"), 1)), "b");
}

#[test]
fn a_tier_gate_cools_the_model_only() {
    let mut p = pool("a=http://a,b=http://b");
    let mut store = InMemoryAffinityStore::default();
    turn(&mut p, &mut store, GATED, answered(200));
    assert!(p.pinned_at("a", "gpt-5.4", 0).is_none());
    assert!(p.pinned_at("a", "other", 0).is_some());
}

#[test]
fn two_failures_surface_the_second_response() {
    let mut p = pool("a=http://a,b=http://b");
    let mut store = InMemoryAffinityStore::default();
    let action = turn(&mut p, &mut store, answered(429), answered(503));
    assert_eq!(
        answer(&action),
        (Which::Second, "b".to_string(), RouteSource::RepinFailed)
    );
    assert!(action.put.is_none());
    assert!(p.pinned_at("b", "", 0).is_none());
}

#[test]
fn an_unreachable_second_account_surfaces_the_first_response() {
    let mut p = pool("a=http://a,b=http://b");
    let mut store = InMemoryAffinityStore::default();
    let action = turn(&mut p, &mut store, answered(429), Attempt::Unreachable);
    assert_eq!(
        answer(&action),
        (Which::First, "a".to_string(), RouteSource::RepinFailed)
    );
    assert!(p.pinned_at("b", "", 0).is_some(), "nothing is known of it");
}

#[test]
fn unreachable_accounts_are_an_error() {
    let mut p = pool("a=http://a,b=http://b");
    let mut store = InMemoryAffinityStore::default();
    let action = turn(
        &mut p,
        &mut store,
        Attempt::Unreachable,
        Attempt::Unreachable,
    );
    assert_eq!(failure(action), "router: all codex accounts unreachable");

    let mut p = pool("a=http://a");
    let action = turn(&mut p, &mut store, Attempt::Unreachable, answered(200));
    assert_eq!(failure(action), "router: codex account unreachable");
}

#[test]
fn a_single_account_answers_for_itself() {
    let mut p = pool("a=http://a");
    let mut store = InMemoryAffinityStore::default();
    let action = turn(&mut p, &mut store, answered(503), answered(200));
    assert_eq!(
        answer(&action),
        (Which::First, "a".to_string(), RouteSource::Single)
    );
    assert!(action.clear.is_some());
}

#[test]
fn a_request_needs_a_pool_a_key_and_a_body() {
    let h = Headers::new();
    let fail = |r: Result<RouteRun, ApiError>| match r {
        Ok(_) => panic!("accepted"),
        Err(e) => e,
    };
    assert_eq!(
        fail(RouteRun::open(false, Some("k"), true, &h, convo())).message(),
        "router mode: no account pool configured"
    );
    assert!(matches!(
        fail(RouteRun::open(true, None, true, &h, convo())),
        ApiError::AdminNotConfigured
    ));
    let bad = fail(RouteRun::open(true, Some("k"), true, &h, b"{not json"));
    assert!(matches!(bad, ApiError::BadRequest(_)));
    assert_eq!(bad.message(), "Failed to parse request body");

    let mut p = pool("a=http://a");
    p.accounts.clear();
    let action = open(true).send_first(&mut p, None, 0);
    assert_eq!(failure(action), "router mode: account pool is empty");
}

#[test]
fn the_key_stays_out_of_the_logs() {
    let mut h = Headers::new();
    h.append("x-conversation-id", b"secret-id".to_vec());
    let run = match RouteRun::open(true, Some("k"), true, &h, b"{}") {
        Ok(run) => run,
        Err(e) => panic!("{}", e.message()),
    };
    assert_eq!(run.conversation_key.as_deref(), Some("secret-id"));
    assert_eq!(run.fingerprint.len(), 36);
    assert_eq!(run.model, "");
    let run = match RouteRun::open(true, Some("k"), true, &Headers::new(), b"{}") {
        Ok(run) => run,
        Err(e) => panic!("{}", e.message()),
    };
    assert!(run.conversation_key.is_none());
    assert_eq!(run.fingerprint, "");
}

#[test]
fn the_origin_of_a_pool_is_kept() {
    let mut p = pool("a=http://a:1,b=http://b:1");
    let started = p.started;
    p.cooldown("a");
    p.cooldown_model("b", "m");
    p.cooldown_at("b", 5);
    p.cooldown_model_at("a", "m", 5);
    assert!(p.pick(None, "m").is_some());
    assert!(p.pick_at(Some("a"), "m", 6).is_some());
    let mut run = open(true);
    run.send_first(&mut p, None, 7);
    run.settle(&mut p, answered(429), 8);
    assert_eq!(p.started, started);
    assert_eq!(p.len(), 2);
}

#[test]
fn picks_in_a_row_visit_every_account() {
    let mut p = pool("a=http://a:1,b=http://b:1,c=http://c:1");
    p.pick_at(None, "m", 0);
    let seen: Vec<String> = (0..3)
        .map(|now| p.pick_at(None, "m", now).unwrap().slug)
        .collect();
    assert_eq!(seen, ["b", "c", "a"]);
}
