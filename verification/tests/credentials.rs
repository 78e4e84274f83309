use codex_proxy::credentials::fs::is_zero;
use codex_proxy::credentials::fs::FsAuth;
use codex_proxy::credentials::fs::FsTokens;
use codex_proxy::credentials::oauth::expires_at_from;
use codex_proxy::credentials::oauth::is_success;
use codex_proxy::credentials::oauth::now_ms;
use codex_proxy::credentials::oauth::refresh_body;
use codex_proxy::credentials::oauth::refresh_request;
use codex_proxy::credentials::oauth::refresh_token;
use codex_proxy::credentials::oauth::token_expired;
use codex_proxy::credentials::oauth::RefreshReply;
use codex_proxy::credentials::oauth::TokenRefreshResponse;
use codex_proxy::credentials::oauth::TOKEN_EXPIRY_BUFFER_MS;
use codex_proxy::credentials::refresher::obtain;
use codex_proxy::credentials::refresher::refresh;
use codex_proxy::credentials::refresher::settle;
use codex_proxy::credentials::refresher::update_tokens;
use codex_proxy::credentials::refresher::Obtained;
use codex_proxy::credentials::CredentialsError;
use codex_proxy::credentials::CredentialsKind;
use codex_proxy::credentials::EnvCredentials;
use codex_proxy::credentials::FsAuthFile;
use codex_proxy::credentials::OAuthCredentials;

const NOW: i64 = 1_700_000_000_000;
const HOUR_MS: i64 = 60 * 60 * 1000;

fn creds(access: &str, refresh: &str, expires: i64, user: &str) -> OAuthCredentials {
    OAuthCredentials {
        access_token: access.to_string(),
        refresh_token: refresh.to_string(),
        expires_at_ms: expires,
        user_id: user.to_string(),
    }
}

fn file(id: &str, access: &str, refresh: &str, account: &str, expires: i64) -> FsAuth {
    FsAuth {
        tokens: FsTokens {
            id_token: id.to_string(),
            access_token: access.to_string(),
            refresh_token: refresh.to_string(),
            account_id: account.to_string(),
            expires_at: expires,
        },
    }
}

fn seeded(expires: i64) -> FsAuth {
    file("", "seed-access", "seed-refresh", "acct-1", expires)
}

fn fresh(expires_in: i64) -> RefreshReply {
    RefreshReply::Tokens(TokenRefreshResponse {
        access_token: "fresh-access-0".to_string(),
        refresh_token: "fresh-refresh-0".to_string(),
        expires_in,
    })
}

fn boom() -> RefreshReply {
    RefreshReply::Refused {
        status: "500 Internal Server Error".to_string(),
        body: "boom".to_string(),
    }
}

// ---- the file ----

#[test]
fn init_read_round_trip_with_permissions() {
    let f = FsAuth::init(&creds("tok-a", "ref-a", 1_700_000_000_000, "acct-1"));
    assert_eq!(f.tokens.access_token, "tok-a");
    assert_eq!(f.tokens.refresh_token, "ref-a");
    assert_eq!(f.tokens.account_id, "acct-1");
    assert_eq!(f.tokens.expires_at, 1_700_000_000_000);
    assert_eq!(f.tokens.id_token, "");
    let read = f.read().expect("read succeeds");
    assert_eq!(read.access_token, "tok-a");
    assert_eq!(read.refresh_token, "ref-a");
    assert_eq!(read.expires_at_ms, 1_700_000_000_000);
    assert_eq!(read.user_id, "acct-1");
}

#[test]
fn id_token_fallback_when_access_token_empty() {
    let read = file("idtok", "", "", "acct-2", 0).read().expect("read succeeds");
    assert_eq!(read.access_token, "idtok");
    assert_eq!(read.user_id, "acct-2");
}

#[test]
fn missing_token_or_account_id_is_an_error() {
    for f in [file("", "", "", "a", 0), file("", "t", "", "", 0)] {
        match f.read() {
            Err(CredentialsError::Unavailable(m)) => {
                assert_eq!(m, "missing token or account_id in credentials file")
            }
            _ => panic!("expected an error"),
        }
    }
}

#[test]
fn update_tokens_preserves_id_token_and_account_id() {
    let mut f = file("keep-me", "old", "old-r", "acct-3", 1);
    f.update_tokens("new", "new-r", 99);
    assert_eq!(f.tokens.id_token, "keep-me");
    assert_eq!(f.tokens.account_id, "acct-3");
    assert_eq!(f.tokens.access_token, "new");
    assert_eq!(f.tokens.refresh_token, "new-r");
    assert_eq!(f.tokens.expires_at, 99);
}

#[test]
fn update_tokens_errors_when_file_absent() {
    // What went wrong with the file comes back as it is.
    let r = update_tokens(
        Err(CredentialsError::Storage("gone".to_string())),
        "a".to_string(),
        "b".to_string(),
        1,
        None,
    );
    assert!(matches!(r, Err(CredentialsError::Storage(_))));
}

#[test]
fn the_file_has_its_path() {
    let f = FsAuthFile::new(std::path::PathBuf::from("/x/auth.json"));
    assert_eq!(f.path(), std::path::Path::new("/x/auth.json"));
    assert!(is_zero(&0));
    assert!(!is_zero(&-1));
}

// ---- expiry ----

#[test]
fn token_expired_boundary() {
    // Expires in 2h: not within the 1h buffer.
    assert!(!token_expired(NOW + 2 * HOUR_MS, NOW));
    // Expires in exactly 1h: the boundary counts.
    assert!(token_expired(NOW + HOUR_MS, NOW));
    assert!(!token_expired(NOW + HOUR_MS + 1, NOW));
    // Expires in 30min: within the buffer.
    assert!(token_expired(NOW + HOUR_MS / 2, NOW));
    // Already expired.
    assert!(token_expired(NOW - HOUR_MS, NOW));
    assert!(token_expired(i64::MIN, NOW));
    assert_eq!(TOKEN_EXPIRY_BUFFER_MS, HOUR_MS);
}

#[test]
fn a_lifetime_is_positive() {
    assert!(matches!(expires_at_from(10, NOW), Ok(t) if t == NOW + 10_000));
    for (n, text) in [(0, "0"), (-5, "-5"), (i64::MIN, "-9223372036854775808")] {
        match expires_at_from(n, NOW) {
            Err(e) => assert_eq!(
                e.message(),
                format!("token refresh failed: token endpoint returned a non-positive expiry: {text}")
            ),
            Ok(_) => panic!("accepted {n}"),
        }
    }
}

#[test]
fn the_clock_runs() {
    let a = now_ms();
    assert!(a > 1_600_000_000_000);
    assert!(now_ms() >= a);
}

// ---- the token endpoint ----

#[test]
fn the_refresh_grant_is_complete() {
    let r = refresh_request("seed-refresh").to_value();
    assert_eq!(r["grant_type"], "refresh_token");
    assert_eq!(r["refresh_token"], "seed-refresh");
    assert_eq!(r["client_id"], "app_EMoamEEZ73f0CkXaXp7hrann");
    assert_eq!(r["scope"], "openid profile email");
    assert_eq!(r.as_object().unwrap().len(), 4);
    assert_eq!(
        refresh_body("seed-\"refresh\""),
        r#"{"grant_type":"refresh_token","refresh_token":"seed-\"refresh\"","client_id":"app_EMoamEEZ73f0CkXaXp7hrann","scope":"openid profile email"}"#
    );
}

#[test]
fn every_bad_reply_says_why() {
    let message = |r: RefreshReply| match refresh_token(r) {
        Ok(_) => panic!("accepted"),
        Err(e) => e.message(),
    };
    assert_eq!(
        message(RefreshReply::Failed("no route".to_string())),
        "token refresh failed: request failed: no route"
    );
    assert_eq!(
        message(boom()),
        "token refresh failed: token endpoint returned 500 Internal Server Error: boom"
    );
    assert_eq!(
        message(RefreshReply::Garbled("eof".to_string())),
        "token refresh failed: invalid token response: eof"
    );
    let empty = RefreshReply::Tokens(TokenRefreshResponse {
        access_token: String::new(),
        refresh_token: "r".to_string(),
        expires_in: 1,
    });
    assert_eq!(
        message(empty),
        "token refresh failed: token endpoint returned an empty access_token"
    );
    assert!(is_success(200));
    assert!(is_success(299));
    assert!(!is_success(199));
    assert!(!is_success(300));
}

// ---- keeping tokens fresh ----

#[test]
fn valid_token_is_returned_without_refresh() {
    match obtain(seeded(NOW + 8 * HOUR_MS).read(), NOW) {
        Obtained::Ready(c) => {
            assert_eq!(c.token, "seed-access");
            assert_eq!(c.account_id, "acct-1");
        }
        _ => panic!("expected credentials"),
    }
}

#[test]
fn expired_token_refreshes_rotates_and_persists() {
    let current = match obtain(seeded(NOW + TOKEN_EXPIRY_BUFFER_MS / 2).read(), NOW) {
        Obtained::Refresh(o) => o,
        _ => panic!("expected a refresh"),
    };
    let (c, store) = settle(current, fresh(3600 * 8), NOW);
    assert_eq!(c.token, "fresh-access-0");
    assert_eq!(c.account_id, "acct-1");
    let new = store.expect("tokens to store");
    let mut f = seeded(0);
    f.update_tokens(&new.access_token, &new.refresh_token, new.expires_at_ms);
    assert_eq!(f.tokens.access_token, "fresh-access-0");
    assert_eq!(f.tokens.refresh_token, "fresh-refresh-0");
    assert_eq!(f.tokens.expires_at, NOW + 8 * HOUR_MS);
    assert_eq!(f.read().unwrap().user_id, "acct-1");
}

#[test]
fn background_tick_refreshes_only_when_expiring() {
    // Valid token: tick is a no-op.
    let valid = seeded(NOW + 8 * HOUR_MS).read().unwrap();
    assert!(!token_expired(valid.expires_at_ms, NOW));
    assert!(matches!(obtain(Ok(valid), NOW), Obtained::Ready(_)));

    // An expiring one: the tick refreshes and persists.
    let expiring = seeded(NOW - 1000).read().unwrap();
    assert!(token_expired(expiring.expires_at_ms, NOW));
    let current = match obtain(Ok(expiring), NOW) {
        Obtained::Refresh(c) => c,
        _ => panic!("not refreshed"),
    };
    let new = match refresh(&current, fresh(8 * 3600), NOW) {
        Ok(c) => c,
        Err(e) => panic!("{}", e.message()),
    };
    let mut stored = seeded(NOW - 1000);
    stored.update_tokens(&new.access_token, &new.refresh_token, new.expires_at_ms);
    assert_eq!(stored.tokens.access_token, "fresh-access-0");
    assert!(matches!(obtain(stored.read(), NOW), Obtained::Ready(_)));
}

#[test]
fn refresh_failure_returns_stale_token() {
    let (c, store) = settle(seeded(NOW - 1000).read().unwrap(), boom(), NOW);
    assert_eq!(c.token, "seed-access");
    assert!(store.is_none());
    // A token that is already expired is no better.
    let (c, store) = settle(seeded(NOW - 1000).read().unwrap(), fresh(0), NOW);
    assert_eq!(c.token, "seed-access");
    assert!(store.is_none());
}

#[test]
fn forced_refresh_propagates_errors() {
    let current = seeded(NOW - 1000).read().unwrap();
    assert!(matches!(
        refresh(&current, boom(), NOW),
        Err(CredentialsError::Refresh(_))
    ));
    assert!(matches!(
        refresh(&current, fresh(-1), NOW),
        Err(CredentialsError::Refresh(_))
    ));
    let new = refresh(&current, fresh(60), NOW).unwrap();
    assert_eq!(new.user_id, "acct-1");
    assert_eq!(new.expires_at_ms, NOW + 60_000);
}

#[test]
fn update_tokens_bootstraps_missing_file() {
    let push = |user: Option<&str>| {
        update_tokens(
            Ok(None),
            "pushed-access".to_string(),
            "pushed-refresh".to_string(),
            NOW + 8 * HOUR_MS,
            user.map(|u| u.to_string()),
        )
    };
    let full = push(Some("acct-9")).expect("bootstrap succeeds").read().unwrap();
    assert_eq!(full.access_token, "pushed-access");
    assert_eq!(full.user_id, "acct-9");
    match obtain(Ok(full), NOW) {
        Obtained::Ready(c) => assert_eq!(c.account_id, "acct-9"),
        _ => panic!("expected credentials"),
    }
    for bad in [None, Some("")] {
        match push(bad) {
            Err(CredentialsError::Unavailable(m)) => assert_eq!(
                m,
                "userID is required when bootstrapping the filesystem credential store"
            ),
            _ => panic!("expected an error"),
        }
    }
}

#[test]
fn pushed_tokens_replace_those_of_a_file() {
    let f = update_tokens(
        Ok(Some(seeded(1))),
        "pushed".to_string(),
        "pushed-r".to_string(),
        7,
        Some("ignored".to_string()),
    )
    .unwrap();
    assert_eq!(f.tokens.access_token, "pushed");
    assert_eq!(f.tokens.refresh_token, "pushed-r");
    assert_eq!(f.tokens.expires_at, 7);
    assert_eq!(f.tokens.account_id, "acct-1");
}

#[test]
fn missing_file_get_credentials_is_unavailable() {
    let read = Err(CredentialsError::Storage("No such file".to_string()));
    match obtain(read, NOW) {
        Obtained::Unavailable(e) => assert_eq!(
            e.message(),
            "credentials unavailable: failed to get full credentials: credential storage error: No such file"
        ),
        _ => panic!("expected an error"),
    }
}

// ---- the static store ----

#[test]
fn static_credentials_are_what_they_are() {
    let s = EnvCredentials::new("tok".to_string(), String::new());
    assert_eq!(s.kind(), CredentialsKind::Basic);
    let c = s.get_credentials().unwrap();
    assert_eq!(c.token, "tok");
    assert_eq!(c.account_id, "");
    assert!(s.refresh_credentials().is_ok());
    assert!(matches!(
        s.full_credentials(),
        Err(CredentialsError::OAuthUnsupported)
    ));
    assert!(matches!(
        s.update_tokens("a".to_string(), "r".to_string(), 1, None),
        Err(CredentialsError::OAuthUnsupported)
    ));
}

#[test]
fn errors_have_messages() {
    assert_eq!(
        CredentialsError::Parse("eof".to_string()).message(),
        "credentials file is invalid: eof"
    );
    assert_eq!(
        CredentialsError::OAuthUnsupported.message(),
        "credential store does not support OAuth operations"
    );
}
