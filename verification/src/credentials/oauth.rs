//! The refresh of OAuth tokens.
use super::CredentialsError;
use super::CredentialsErrorView;
use crate::json;
use crate::json::Json;
use crate::json::JsonView;
use crate::text;
use vstd::prelude::*;

pub use crate::clock::now_ms;

verus! {

/// The endpoint that refreshes tokens.
pub const OAUTH_TOKEN_URL: &'static str = "https://auth.openai.com/oauth/token";

/// The client that the tokens were issued to.
pub const CLIENT_ID: &'static str = "app_EMoamEEZ73f0CkXaXp7hrann";

/// The scope that a refresh asks for.
pub const SCOPE: &'static str = "openid profile email";

/// A token is refreshed this long before it expires, in milliseconds.
pub const TOKEN_EXPIRY_BUFFER_MS: i64 = 60 * 60 * 1000;

/// A token counts as expired from one buffer before its expiry on.
pub open spec fn expired(expires_at_ms: i64, now_ms: i64) -> bool {
    now_ms >= expires_at_ms - TOKEN_EXPIRY_BUFFER_MS
}

/// Whether a token counts as expired.
pub fn token_expired(expires_at_ms: i64, now_ms: i64) -> (r: bool)
    ensures
        r == expired(expires_at_ms, now_ms),
{
    expires_at_ms < i64::MIN + TOKEN_EXPIRY_BUFFER_MS || now_ms >= expires_at_ms
        - TOKEN_EXPIRY_BUFFER_MS
}

/// What a refresh sends.
pub open spec fn refresh_grant(refresh_token: Seq<char>) -> JsonView {
    JsonView::Object(
        map![
            "grant_type"@ => JsonView::Text("refresh_token"@),
            "refresh_token"@ => JsonView::Text(refresh_token),
            "client_id"@ => JsonView::Text(CLIENT_ID@),
            "scope"@ => JsonView::Text(SCOPE@),
        ],
    )
}

/// What a refresh sends.
pub fn refresh_request(refresh_token: &str) -> (r: Json)
    ensures
        r@ == refresh_grant(refresh_token@),
{
    proof {
        reveal_strlit("grant_type");
        reveal_strlit("refresh_token");
        reveal_strlit("client_id");
        reveal_strlit("scope");
        assert("grant_type"@.len() == 10);
        assert("refresh_token"@.len() == 13);
        assert("client_id"@.len() == 9);
        assert("scope"@.len() == 5);
    }
    let r = Json::object().with("grant_type", Json::text("refresh_token")).with(
        "refresh_token",
        Json::text(refresh_token),
    ).with("client_id", Json::text(CLIENT_ID)).with("scope", Json::text(SCOPE));
    proof {
        assert(r@ =~~= refresh_grant(refresh_token@));
    }
    r
}

/// The members of a refresh, in the order in which they are sent.
pub open spec fn grant_order() -> Seq<Seq<char>> {
    seq!["grant_type"@, "refresh_token"@, "client_id"@, "scope"@]
}

/// The body that a refresh sends: the compact text of the grant.
pub fn refresh_body(refresh_token: &str) -> (r: String)
    ensures
        r@ == json::ordered_text(refresh_grant(refresh_token@), grant_order()),
        json::is_legible(refresh_grant(refresh_token@), grant_order()),
{
    let mut order: Vec<&'static str> = Vec::new();
    order.push("grant_type");
    order.push("refresh_token");
    order.push("client_id");
    order.push("scope");
    proof {
        assert(text::slices(order@) =~= grant_order());
        lemma_grant_legible(refresh_token@);
    }
    refresh_request(refresh_token).to_ordered_text(&order)
}

/// A grant is sent whole, and is read as it was sent.
proof fn lemma_grant_legible(refresh_token: Seq<char>)
    ensures
        json::is_legible(refresh_grant(refresh_token), grant_order()),
{
    reveal_strlit("$serde_json::private::RawValue");
    reveal_strlit("grant_type");
    reveal_strlit("refresh_token");
    reveal_strlit("client_id");
    reveal_strlit("scope");
    assert(json::RESERVED_KEY@.len() == 30);
    assert("grant_type"@.len() == 10);
    assert("refresh_token"@.len() == 13);
    assert("client_id"@.len() == 9);
    assert("scope"@.len() == 5);
    reveal_with_fuel(json::is_plain, 2);
    reveal_with_fuel(json::nests_within, 2);
    reveal_with_fuel(json::keys_among, 2);
    let order = grant_order();
    assert(order[0] == "grant_type"@);
    assert(order[1] == "refresh_token"@);
    assert(order[2] == "client_id"@);
    assert(order[3] == "scope"@);
}

/// The tokens that a refresh brings.
#[derive(Debug)]
pub struct TokenRefreshResponse {
    pub access_token: String,
    pub refresh_token: String,
    /// Seconds until the access token expires.
    pub expires_in: i64,
}

/// What came back from the token endpoint.
#[derive(Debug)]
pub enum RefreshReply {
    /// The request failed; with the message of the client.
    Failed(String),
    /// The endpoint answered with a status that is no success, and this body.
    Refused { status: String, body: String },
    /// The endpoint answered with something else than tokens; with the message
    /// of the parser.
    Garbled(String),
    /// The endpoint answered with tokens.
    Tokens(TokenRefreshResponse),
}

/// Tokens in mathematical form.
pub struct TokensView {
    pub access_token: Seq<char>,
    pub refresh_token: Seq<char>,
    pub expires_in: i64,
}

impl TokenRefreshResponse {
    /// The tokens in mathematical form.
    pub open spec fn view(&self) -> TokensView {
        TokensView {
            access_token: self.access_token@,
            refresh_token: self.refresh_token@,
            expires_in: self.expires_in,
        }
    }
}

/// A reply in mathematical form.
pub enum ReplyView {
    Failed(Seq<char>),
    Refused { status: Seq<char>, body: Seq<char> },
    Garbled(Seq<char>),
    Tokens(TokensView),
}

impl RefreshReply {
    /// The reply in mathematical form.
    pub open spec fn view(&self) -> ReplyView {
        match self {
            RefreshReply::Failed(m) => ReplyView::Failed(m@),
            RefreshReply::Refused { status, body } => ReplyView::Refused {
                status: status@,
                body: body@,
            },
            RefreshReply::Garbled(m) => ReplyView::Garbled(m@),
            RefreshReply::Tokens(t) => ReplyView::Tokens(t@),
        }
    }
}

/// A status that is a success.
pub open spec fn succeeds(status: u16) -> bool {
    200 <= status < 300
}

/// Whether a status is a success.
pub fn is_success(status: u16) -> (r: bool)
    ensures
        r == succeeds(status),
{
    200 <= status && status < 300
}

/// The tokens that a reply brings, or why it brings none.
pub open spec fn reply_tokens(r: ReplyView) -> Result<TokensView, CredentialsErrorView> {
    match r {
        ReplyView::Failed(m) => Err(CredentialsErrorView::Refresh("request failed: "@ + m)),
        ReplyView::Refused { status, body } => Err(
            CredentialsErrorView::Refresh(
                "token endpoint returned "@ + status + ": "@ + body,
            ),
        ),
        ReplyView::Garbled(m) => Err(
            CredentialsErrorView::Refresh("invalid token response: "@ + m),
        ),
        ReplyView::Tokens(t) => if t.access_token.len() == 0 {
            Err(
                CredentialsErrorView::Refresh(
                    "token endpoint returned an empty access_token"@,
                ),
            )
        } else {
            Ok(t)
        },
    }
}

/// The tokens that a reply of the token endpoint brings.
pub fn refresh_token(reply: RefreshReply) -> (r: Result<TokenRefreshResponse, CredentialsError>)
    ensures
        match r {
            Ok(t) => reply_tokens(reply@) == Ok::<TokensView, CredentialsErrorView>(t@),
            Err(e) => reply_tokens(reply@) == Err::<TokensView, CredentialsErrorView>(e@),
        },
{
    match reply {
        RefreshReply::Failed(m) => {
            let mut out: String = "request failed: ".to_owned();
            out.append(m.as_str());
            Err(CredentialsError::Refresh(out))
        },
        RefreshReply::Refused { status, body } => {
            let mut out: String = "token endpoint returned ".to_owned();
            out.append(status.as_str());
            out.append(": ");
            out.append(body.as_str());
            Err(CredentialsError::Refresh(out))
        },
        RefreshReply::Garbled(m) => {
            let mut out: String = "invalid token response: ".to_owned();
            out.append(m.as_str());
            Err(CredentialsError::Refresh(out))
        },
        RefreshReply::Tokens(t) => {
            if t.access_token.as_str().is_empty() {
                Err(
                    CredentialsError::Refresh(
                        "token endpoint returned an empty access_token".to_owned(),
                    ),
                )
            } else {
                Ok(t)
            }
        },
    }
}

/// When a token expires that lives this many seconds from now; an error where
/// it does not live at all.
pub open spec fn expiry(expires_in: i64, now_ms: i64) -> Result<int, CredentialsErrorView> {
    if expires_in <= 0 {
        Err(
            CredentialsErrorView::Refresh(
                "token endpoint returned a non-positive expiry: "@ + text::signed_decimal(
                    expires_in as int,
                ),
            ),
        )
    } else {
        Ok(now_ms + expires_in * 1000)
    }
}

/// An expiry that can be kept in milliseconds.
pub open spec fn expiry_fits(expires_in: i64, now_ms: i64) -> bool {
    expires_in > 0 ==> expires_in * 1000 <= i64::MAX && now_ms + expires_in * 1000 <= i64::MAX
}

/// When a token expires that lives this many seconds from now. A token that
/// has already expired is rejected: kept, it would turn every request into a
/// refresh.
pub fn expires_at_from(expires_in: i64, now_ms: i64) -> (r: Result<i64, CredentialsError>)
    requires
        expiry_fits(expires_in, now_ms),
    ensures
        match r {
            Ok(t) => expiry(expires_in, now_ms) == Ok::<int, CredentialsErrorView>(t as int),
            Err(e) => expiry(expires_in, now_ms) == Err::<int, CredentialsErrorView>(e@),
        },
{
    if expires_in <= 0 {
        let mut out: String = "token endpoint returned a non-positive expiry: ".to_owned();
        out.append(text::to_signed_decimal(expires_in).as_str());
        return Err(CredentialsError::Refresh(out));
    }
    Ok(now_ms + expires_in * 1000)
}

/// A token stays expired: what counts as expired now does so later too.
pub proof fn law_expired_stays_expired(expires_at_ms: i64, now: i64, later: i64)
    requires
        expired(expires_at_ms, now),
        now <= later,
    ensures
        expired(expires_at_ms, later),
{
}

/// A token that lives longer than the buffer is not expired when it is new.
pub proof fn law_new_token_is_fresh(expires_in: i64, now: i64)
    requires
        expires_in * 1000 > TOKEN_EXPIRY_BUFFER_MS,
        expiry_fits(expires_in, now),
    ensures
        expiry(expires_in, now) matches Ok(t) && !expired(t as i64, now),
{
}

} // verus!
