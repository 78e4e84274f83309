//! `/admin/credentials` and `/admin/credentials/status`.
use crate::credentials;
use crate::credentials::Credentials;
use crate::credentials::CredentialsError;
use crate::credentials::CredentialsErrorView;
use crate::credentials::CredentialsView;
use crate::credentials::OAuthCredentials;
use crate::credentials::OAuthView;
use crate::json::Json;
use crate::json::JsonView;
use crate::json::NumView;
use crate::server::error::ApiError;
use crate::server::error::ApiErrorView;
use vstd::prelude::*;

verus! {

/// Tokens that are pushed. What the request leaves out is empty or zero.
#[derive(Debug)]
pub struct UpdateCredentialsBody {
    pub access_token: String,
    pub refresh_token: String,
    /// Milliseconds since the Unix epoch.
    pub expires_at: i64,
    pub user_id: Option<String>,
}

impl UpdateCredentialsBody {
    /// All that is needed is there.
    pub open spec fn is_complete(&self) -> bool {
        self.access_token@.len() > 0 && self.refresh_token@.len() > 0 && self.expires_at != 0
    }

    /// Accepts what is complete.
    pub fn check(&self) -> (r: Result<(), ApiError>)
        ensures
            self.is_complete() ==> r is Ok,
            !self.is_complete() ==> (r matches Err(e) && e@ == ApiErrorView::BadRequest(
                "Missing required fields: accessToken, refreshToken, expiresAt"@,
            )),
    {
        if self.access_token.as_str().is_empty() || self.refresh_token.as_str().is_empty()
            || self.expires_at == 0 {
            return Err(
                ApiError::BadRequest(
                    "Missing required fields: accessToken, refreshToken, expiresAt".to_owned(),
                ),
            );
        }
        Ok(())
    }
}

/// The body of the response to tokens that were stored.
pub open spec fn stored_body() -> JsonView {
    JsonView::Object(
        map![
            "status"@ => JsonView::Text("success"@),
            "message"@ => JsonView::Text("Credentials updated successfully"@),
        ],
    )
}

/// The response to tokens, once the store took them in or did not.
pub fn update_credentials(stored: Result<(), CredentialsError>) -> (r: Result<Json, ApiError>)
    ensures
        match stored {
            Ok(()) => r matches Ok(j) && j@ == stored_body(),
            Err(CredentialsError::OAuthUnsupported) => r matches Err(e) && e@
                == ApiErrorView::BadRequest(
                "Credentials fetcher does not support OAuth token updates"@,
            ),
            Err(_) => r matches Err(e) && e@ == ApiErrorView::Internal(
                "Failed to update credentials"@,
            ),
        },
{
    match stored {
        Ok(()) => {
            let j = Json::object().with("status", Json::text("success")).with(
                "message",
                Json::text("Credentials updated successfully"),
            );
            proof {
                reveal_strlit("status");
                reveal_strlit("message");
                assert("status"@.len() != "message"@.len());
                assert(j@ =~~= stored_body());
            }
            Ok(j)
        },
        Err(CredentialsError::OAuthUnsupported) => Err(
            ApiError::BadRequest(
                "Credentials fetcher does not support OAuth token updates".to_owned(),
            ),
        ),
        Err(_) => Err(ApiError::Internal("Failed to update credentials")),
    }
}

/// What a store holds.
#[derive(Debug)]
pub enum Held {
    /// A static token.
    Basic(Result<Credentials, CredentialsError>),
    /// OAuth state.
    OAuth(Result<OAuthCredentials, CredentialsError>),
}

/// What a store holds, in mathematical form.
pub enum HeldView {
    Basic(Result<CredentialsView, CredentialsErrorView>),
    OAuth(Result<OAuthView, CredentialsErrorView>),
}

impl Held {
    /// What the store holds, in mathematical form.
    pub open spec fn view(&self) -> HeldView {
        match self {
            Held::Basic(Ok(c)) => HeldView::Basic(Ok(c@)),
            Held::Basic(Err(e)) => HeldView::Basic(Err(e@)),
            Held::OAuth(Ok(o)) => HeldView::OAuth(Ok(o@)),
            Held::OAuth(Err(e)) => HeldView::OAuth(Err(e@)),
        }
    }
}

/// The whole minutes between two points in time, in milliseconds; negative
/// where the second is past.
pub open spec fn minutes_until(expires_at_ms: i64, now_ms: i64) -> int {
    let left = expires_at_ms - now_ms;
    if left >= 0 {
        left / 60_000
    } else {
        -((-left) / 60_000)
    }
}

/// The body of the response to a question about the credentials.
pub open spec fn status_body(held: HeldView, now_ms: i64) -> JsonView {
    match held {
        HeldView::Basic(Ok(c)) => JsonView::Object(
            map![
                "type"@ => JsonView::Text("basic"@),
                "hasCredentials"@ => JsonView::Bool(c.token.len() > 0),
                "userID"@ => JsonView::Text(c.account_id),
            ],
        ),
        HeldView::OAuth(Ok(o)) => {
            let minutes = minutes_until(o.expires_at_ms, now_ms);
            JsonView::Object(
                map![
                    "type"@ => JsonView::Text("oauth"@),
                    "hasCredentials"@ => JsonView::Bool(true),
                    "userID"@ => JsonView::Text(o.user_id),
                    "expiresAt"@ => JsonView::Num(NumView::Int(o.expires_at_ms as int)),
                    "minutesUntilExpiry"@ => JsonView::Num(NumView::Int(minutes)),
                    "isExpired"@ => JsonView::Bool(minutes <= 0),
                    "needsRefreshSoon"@ => JsonView::Bool(minutes <= 60),
                ],
            )
        },
        HeldView::Basic(Err(e)) => failed_status("basic"@, e),
        HeldView::OAuth(Err(e)) => failed_status("oauth"@, e),
    }
}

/// The body where there are no credentials.
pub open spec fn failed_status(kind: Seq<char>, e: CredentialsErrorView) -> JsonView {
    JsonView::Object(
        map![
            "type"@ => JsonView::Text(kind),
            "hasCredentials"@ => JsonView::Bool(false),
            "error"@ => JsonView::Text(credentials::error_text(e)),
        ],
    )
}

/// The member names of the body, told apart by length.
proof fn reveal_names()
    ensures
        "type"@.len() == 4,
        "error"@.len() == 5,
        "userID"@.len() == 6,
        "expiresAt"@.len() == 9 && "expiresAt"@[0] == 'e',
        "isExpired"@.len() == 9 && "isExpired"@[0] == 'i',
        "hasCredentials"@.len() == 14,
        "needsRefreshSoon"@.len() == 16,
        "minutesUntilExpiry"@.len() == 18,
{
    reveal_strlit("type");
    reveal_strlit("error");
    reveal_strlit("userID");
    reveal_strlit("expiresAt");
    reveal_strlit("isExpired");
    reveal_strlit("hasCredentials");
    reveal_strlit("needsRefreshSoon");
    reveal_strlit("minutesUntilExpiry");
}

/// The body where there are no credentials.
fn make_failed_status(kind: &str, e: &CredentialsError) -> (r: Json)
    ensures
        r@ == failed_status(kind@, e@),
{
    let r = Json::object().with("type", Json::text(kind)).with(
        "hasCredentials",
        Json::Bool(false),
    ).with("error", Json::text(e.message().as_str()));
    proof {
        reveal_names();
        assert(r@ =~~= failed_status(kind@, e@));
    }
    r
}

/// The whole minutes between two points in time, in milliseconds.
fn count_minutes(expires_at_ms: i64, now_ms: i64) -> (r: i64)
    ensures
        r == minutes_until(expires_at_ms, now_ms),
{
    let left: i128 = expires_at_ms as i128 - now_ms as i128;
    if left >= 0 {
        (left / 60_000) as i64
    } else {
        -(((-left) / 60_000) as i64)
    }
}

/// The body of the response to a question about the credentials. It shows no
/// token.
pub fn credentials_status(held: Held, now_ms: i64) -> (r: Json)
    ensures
        r@ == status_body(held@, now_ms),
{
    match held {
        Held::Basic(Err(e)) => make_failed_status("basic", &e),
        Held::OAuth(Err(e)) => make_failed_status("oauth", &e),
        Held::Basic(Ok(c)) => {
            let r = Json::object().with("type", Json::text("basic")).with(
                "hasCredentials",
                Json::Bool(!c.token.as_str().is_empty()),
            ).with("userID", Json::text(c.account_id.as_str()));
            proof {
                reveal_names();
                assert(r@ =~~= status_body(HeldView::Basic(Ok(c@)), now_ms));
            }
            r
        },
        Held::OAuth(Ok(o)) => {
            let minutes: i64 = count_minutes(o.expires_at_ms, now_ms);
            let r = Json::object().with("type", Json::text("oauth")).with(
                "hasCredentials",
                Json::Bool(true),
            ).with("userID", Json::text(o.user_id.as_str())).with(
                "expiresAt",
                Json::integer(o.expires_at_ms),
            ).with("minutesUntilExpiry", Json::integer(minutes)).with(
                "isExpired",
                Json::Bool(minutes <= 0),
            ).with("needsRefreshSoon", Json::Bool(minutes <= 60));
            proof {
                reveal_names();
                assert(r@ =~~= status_body(HeldView::OAuth(Ok(o@)), now_ms));
            }
            r
        },
    }
}

/// The status of OAuth credentials does not depend on their tokens.
pub proof fn law_status_shows_no_token(a: OAuthView, b: OAuthView, now_ms: i64)
    requires
        a.user_id == b.user_id,
        a.expires_at_ms == b.expires_at_ms,
    ensures
        status_body(HeldView::OAuth(Ok(a)), now_ms) == status_body(HeldView::OAuth(Ok(b)), now_ms),
{
}

/// A token that counts as expired, with its buffer, is shown as one that needs
/// a refresh soon.
pub proof fn law_expired_token_needs_refresh(expires_at_ms: i64, now_ms: i64)
    requires
        credentials::oauth::expired(expires_at_ms, now_ms),
    ensures
        minutes_until(expires_at_ms, now_ms) <= 60,
{
}

} // verus!
