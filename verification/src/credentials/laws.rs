//! How tokens are kept, checked and renewed.
//!
//! The laws speak of the file, of the replies of the token endpoint and of the
//! credentials that requests are sent with.
use super::CredentialsErrorView;
use super::CredentialsView;
use super::OAuthView;
use super::fs;
use super::fs::FileView;
use super::oauth;
use super::oauth::ReplyView;
use super::oauth::TokensView;
use super::refresher;
use super::refresher::ObtainedView;
use crate::credentials;
use crate::json;
use vstd::prelude::*;

verus! {

/// A token counts as expired from one hour before its expiry on.
pub proof fn law_token_expires_an_hour_early(expires_at_ms: i64, now_ms: i64)
    ensures
        oauth::expired(expires_at_ms, now_ms) <==> expires_at_ms - now_ms <= 3_600_000,
{
}

/// A token that lives some seconds expires so many thousand milliseconds from
/// now; one that does not live at all is an error.
pub proof fn law_expiry_is_told_in_seconds(expires_in: i64, now_ms: i64)
    ensures
        expires_in > 0 ==> oauth::expiry(expires_in, now_ms) == Ok::<int, CredentialsErrorView>(
            now_ms + 1000 * expires_in,
        ),
        expires_in <= 0 ==> oauth::expiry(expires_in, now_ms) matches Err(
            CredentialsErrorView::Refresh(_),
        ),
{
}

/// A refresh sends the refresh token, the client and the scope.
pub proof fn law_refresh_token_is_sent(refresh_token: Seq<char>)
    ensures
        ({
            let grant = oauth::refresh_grant(refresh_token);
            &&& json::text_field(grant, "grant_type"@) == Some("refresh_token"@)
            &&& json::text_field(grant, "refresh_token"@) == Some(refresh_token)
            &&& json::text_field(grant, "client_id"@) == Some("app_EMoamEEZ73f0CkXaXp7hrann"@)
            &&& json::text_field(grant, "scope"@) == Some("openid profile email"@)
        }),
{
    reveal_strlit("grant_type");
    reveal_strlit("refresh_token");
    reveal_strlit("client_id");
    reveal_strlit("scope");
    assert("grant_type"@.len() == 10);
    assert("refresh_token"@.len() == 13);
    assert("client_id"@.len() == 9);
    assert("scope"@.len() == 5);
}

/// A status of the two hundreds is a success, and no other is.
pub proof fn law_success_is_two_hundred_something(status: u16)
    ensures
        oauth::succeeds(status) <==> status / 100 == 2,
{
}

/// A reply with an access token brings its tokens as they are; every other reply
/// is a failed refresh that tells what came back.
pub proof fn law_reply_brings_its_tokens(
    t: TokensView,
    m: Seq<char>,
    status: Seq<char>,
    body: Seq<char>,
)
    ensures
        t.access_token.len() > 0 ==> oauth::reply_tokens(ReplyView::Tokens(t)) == Ok::<
            TokensView,
            CredentialsErrorView,
        >(t),
        t.access_token.len() == 0 ==> oauth::reply_tokens(ReplyView::Tokens(t)) matches Err(
            CredentialsErrorView::Refresh(_),
        ),
        oauth::reply_tokens(ReplyView::Failed(m)) == Err::<TokensView, CredentialsErrorView>(
            CredentialsErrorView::Refresh("request failed: "@ + m),
        ),
        oauth::reply_tokens(ReplyView::Garbled(m)) == Err::<TokensView, CredentialsErrorView>(
            CredentialsErrorView::Refresh("invalid token response: "@ + m),
        ),
        oauth::reply_tokens(ReplyView::Refused { status, body }) == Err::<
            TokensView,
            CredentialsErrorView,
        >(
            CredentialsErrorView::Refresh(
                "token endpoint returned "@ + status + ": "@ + body,
            ),
        ),
{
}

/// A file gives its access token, or its id token where there is none, with its
/// refresh token, expiry and account; without a token or an account it gives
/// nothing.
pub proof fn law_file_is_read(f: FileView)
    ensures
        fs::file_credentials(f) is Ok <==> (f.access_token.len() > 0 || f.id_token.len() > 0)
            && f.account_id.len() > 0,
        fs::file_credentials(f) matches Ok(o) ==> {
            &&& f.access_token.len() > 0 ==> o.access_token == f.access_token
            &&& f.access_token.len() == 0 ==> o.access_token == f.id_token
            &&& o.refresh_token == f.refresh_token
            &&& o.expires_at_ms == f.expires_at
            &&& o.user_id == f.account_id
        },
        fs::file_credentials(f) matches Err(e) ==> e is Unavailable,
{
}

/// New tokens replace the old ones and their expiry; the id token and the
/// account stay.
pub proof fn law_tokens_are_replaced(
    f: FileView,
    access_token: Seq<char>,
    refresh_token: Seq<char>,
    expires_at: i64,
)
    ensures
        ({
            let g = fs::with_tokens(f, access_token, refresh_token, expires_at);
            &&& g.access_token == access_token
            &&& g.refresh_token == refresh_token
            &&& g.expires_at == expires_at
            &&& g.id_token == f.id_token
            &&& g.account_id == f.account_id
        }),
{
}

/// A new file holds the state that it is made of, and no id token.
pub proof fn law_new_file_holds_the_state(o: OAuthView)
    ensures
        ({
            let f = fs::initial_file(o);
            &&& f.access_token == o.access_token
            &&& f.refresh_token == o.refresh_token
            &&& f.expires_at == o.expires_at_ms
            &&& f.account_id == o.user_id
            &&& f.id_token.len() == 0
        }),
{
}

/// What a request needs of the state is the access token and the account.
pub proof fn law_request_takes_token_and_account(o: OAuthView)
    ensures
        credentials::request_credentials(o).token == o.access_token,
        credentials::request_credentials(o).account_id == o.user_id,
{
}

/// The state of the file is used as it is until an hour before its expiry, and
/// refreshed from there on; a file that cannot be read gives nothing.
pub proof fn law_state_is_used_or_refreshed(o: OAuthView, e: CredentialsErrorView, now_ms: i64)
    ensures
        o.expires_at_ms - now_ms > 3_600_000 ==> refresher::obtained(Ok(o), now_ms)
            == ObtainedView::Ready(
            (CredentialsView { token: o.access_token, account_id: o.user_id }),
        ),
        o.expires_at_ms - now_ms <= 3_600_000 ==> refresher::obtained(Ok(o), now_ms)
            == ObtainedView::Refresh(o),
        refresher::obtained(Err(e), now_ms) == ObtainedView::Unavailable(
            CredentialsErrorView::Unavailable(
                "failed to get full credentials: "@ + credentials::error_text(e),
            ),
        ),
{
}

/// A refresh brings new tokens and a new expiry for the same account; they are
/// the ones that are used.
pub proof fn law_refresh_brings_new_tokens(current: OAuthView, t: TokensView, now_ms: i64)
    requires
        t.access_token.len() > 0,
        t.expires_in > 0,
        now_ms + 1000 * t.expires_in <= i64::MAX,
        now_ms >= 0,
    ensures
        refresher::refreshed(current, ReplyView::Tokens(t), now_ms) matches Ok(new) && {
            &&& new.access_token == t.access_token
            &&& new.refresh_token == t.refresh_token
            &&& new.expires_at_ms == now_ms + 1000 * t.expires_in
            &&& new.user_id == current.user_id
        },
        refresher::settled(current, ReplyView::Tokens(t), now_ms).token == t.access_token,
        refresher::settled(current, ReplyView::Tokens(t), now_ms).account_id == current.user_id,
{
}

/// A refresh that brings no tokens, or tokens that do not live, fails, and the
/// old token stays in use.
pub proof fn law_failed_refresh_keeps_the_old_token(
    current: OAuthView,
    reply: ReplyView,
    now_ms: i64,
)
    requires
        reply matches ReplyView::Tokens(t) ==> t.access_token.len() == 0 || t.expires_in <= 0,
    ensures
        refresher::refreshed(current, reply, now_ms) matches Err(CredentialsErrorView::Refresh(_)),
        refresher::settled(current, reply, now_ms).token == current.access_token,
        refresher::settled(current, reply, now_ms).account_id == current.user_id,
{
}

/// Tokens that are pushed replace those of a file that is there, whatever account
/// is named; they make a new file only for an account that is named. A file that
/// cannot be read is not touched.
pub proof fn law_pushed_tokens_are_stored(
    f: FileView,
    e: CredentialsErrorView,
    access_token: Seq<char>,
    refresh_token: Seq<char>,
    expires_at_ms: i64,
    user_id: Option<Seq<char>>,
)
    ensures
        refresher::pushed(Ok(Some(f)), access_token, refresh_token, expires_at_ms, user_id) == Ok::<
            FileView,
            CredentialsErrorView,
        >(
            (FileView {
                id_token: f.id_token,
                access_token,
                refresh_token,
                account_id: f.account_id,
                expires_at: expires_at_ms,
            }),
        ),
        user_id matches Some(id) && id.len() > 0 ==> refresher::pushed(
            Ok(None),
            access_token,
            refresh_token,
            expires_at_ms,
            user_id,
        ) == Ok::<FileView, CredentialsErrorView>(
            (FileView {
                id_token: Seq::empty(),
                access_token,
                refresh_token,
                account_id: user_id->0,
                expires_at: expires_at_ms,
            }),
        ),
        !(user_id matches Some(id) && id.len() > 0) ==> refresher::pushed(
            Ok(None),
            access_token,
            refresh_token,
            expires_at_ms,
            user_id,
        ) == Err::<FileView, CredentialsErrorView>(
            CredentialsErrorView::Unavailable(
                "userID is required when bootstrapping the filesystem credential store"@,
            ),
        ),
        refresher::pushed(Err(e), access_token, refresh_token, expires_at_ms, user_id) == Err::<
            FileView,
            CredentialsErrorView,
        >(e),
{
}

/// An error tells what went wrong.
pub proof fn law_error_tells_what_went_wrong(m: Seq<char>)
    ensures
        credentials::error_text(CredentialsErrorView::OAuthUnsupported)
            == "credential store does not support OAuth operations"@,
        credentials::error_text(CredentialsErrorView::Unavailable(m))
            == "credentials unavailable: "@ + m,
        credentials::error_text(CredentialsErrorView::Refresh(m)) == "token refresh failed: "@ + m,
        credentials::error_text(CredentialsErrorView::Storage(m)) == "credential storage error: "@
            + m,
        credentials::error_text(CredentialsErrorView::Parse(m)) == "credentials file is invalid: "@
            + m,
{
}

} // verus!
