//! OAuth credentials that refresh themselves.
//!
//! The functions here decide; reading and writing the file and asking the
//! token endpoint is up to the caller, who holds one lock over all of it, so
//! that waiting callers see what the first one stored.
use super::fs;
use super::fs::FileView;
use super::fs::FsAuth;
use super::oauth;
use super::oauth::RefreshReply;
use super::oauth::ReplyView;
use super::Credentials;
use super::CredentialsError;
use super::CredentialsErrorView;
use super::CredentialsView;
use super::OAuthCredentials;
use super::OAuthView;
use crate::credentials;
use vstd::prelude::*;

verus! {

/// What is next on the way to credentials, once the file was read.
#[derive(Debug)]
pub enum Obtained {
    /// There are none.
    Unavailable(CredentialsError),
    /// These are good.
    Ready(Credentials),
    /// The token is expired or about to be: refresh it.
    Refresh(OAuthCredentials),
}

/// What is next in mathematical form.
pub enum ObtainedView {
    Unavailable(CredentialsErrorView),
    Ready(CredentialsView),
    Refresh(OAuthView),
}

impl Obtained {
    /// What is next in mathematical form.
    pub open spec fn view(&self) -> ObtainedView {
        match self {
            Obtained::Unavailable(e) => ObtainedView::Unavailable(e@),
            Obtained::Ready(c) => ObtainedView::Ready(c@),
            Obtained::Refresh(o) => ObtainedView::Refresh(o@),
        }
    }
}

/// What a read of the file gave, in mathematical form.
pub open spec fn read_view(read: Result<OAuthCredentials, CredentialsError>) -> Result<
    OAuthView,
    CredentialsErrorView,
> {
    match read {
        Ok(o) => Ok(o@),
        Err(e) => Err(e@),
    }
}

/// What is next once the file was read.
pub open spec fn obtained(
    read: Result<OAuthView, CredentialsErrorView>,
    now_ms: i64,
) -> ObtainedView {
    match read {
        Err(e) => ObtainedView::Unavailable(
            CredentialsErrorView::Unavailable(
                "failed to get full credentials: "@ + credentials::error_text(e),
            ),
        ),
        Ok(o) => if oauth::expired(o.expires_at_ms, now_ms) {
            ObtainedView::Refresh(o)
        } else {
            ObtainedView::Ready(credentials::request_credentials(o))
        },
    }
}

/// Decides what is next once the file was read.
pub fn obtain(read: Result<OAuthCredentials, CredentialsError>, now_ms: i64) -> (r: Obtained)
    ensures
        r@ == obtained(read_view(read), now_ms),
{
    match read {
        Err(e) => {
            let mut out: String = "failed to get full credentials: ".to_owned();
            out.append(e.message().as_str());
            Obtained::Unavailable(CredentialsError::Unavailable(out))
        },
        Ok(o) => {
            if oauth::token_expired(o.expires_at_ms, now_ms) {
                Obtained::Refresh(o)
            } else {
                Obtained::Ready(Credentials { token: o.access_token, account_id: o.user_id })
            }
        },
    }
}

/// The state after a refresh, or why there is none. The account stays.
pub open spec fn refreshed(current: OAuthView, reply: ReplyView, now_ms: i64) -> Result<
    OAuthView,
    CredentialsErrorView,
> {
    match oauth::reply_tokens(reply) {
        Err(e) => Err(e),
        Ok(t) => match oauth::expiry(t.expires_in, now_ms) {
            Err(e) => Err(e),
            Ok(at) => Ok(
                OAuthView {
                    access_token: t.access_token,
                    refresh_token: t.refresh_token,
                    expires_at_ms: at as i64,
                    user_id: current.user_id,
                },
            ),
        },
    }
}

/// A reply whose expiry can be kept in milliseconds.
pub open spec fn reply_fits(reply: ReplyView, now_ms: i64) -> bool {
    oauth::reply_tokens(reply) matches Ok(t) ==> oauth::expiry_fits(t.expires_in, now_ms)
}

/// The state after a refresh, which the caller stores with
/// [`FsAuth::update_tokens`].
pub fn refresh(current: &OAuthCredentials, reply: RefreshReply, now_ms: i64) -> (r: Result<
    OAuthCredentials,
    CredentialsError,
>)
    requires
        reply_fits(reply@, now_ms),
    ensures
        read_view(r) == refreshed(current@, reply@, now_ms),
{
    match oauth::refresh_token(reply) {
        Err(e) => Err(e),
        Ok(t) => match oauth::expires_at_from(t.expires_in, now_ms) {
            Err(e) => Err(e),
            Ok(at) => Ok(
                OAuthCredentials {
                    access_token: t.access_token,
                    refresh_token: t.refresh_token,
                    expires_at_ms: at,
                    user_id: current.user_id.as_str().to_owned(),
                },
            ),
        },
    }
}

/// The credentials that are used once an expired token met a reply: the new
/// ones, whether or not they could be stored, or the stale ones where the
/// refresh failed.
pub open spec fn settled(current: OAuthView, reply: ReplyView, now_ms: i64) -> CredentialsView {
    match refreshed(current, reply, now_ms) {
        Ok(new) => credentials::request_credentials(new),
        Err(_) => credentials::request_credentials(current),
    }
}

/// The credentials to use after a refresh was tried, and the state to store,
/// if there is one. A stale token is better than none, for the backend's
/// rejection leads to another refresh.
pub fn settle(current: OAuthCredentials, reply: RefreshReply, now_ms: i64) -> (r: (
    Credentials,
    Option<OAuthCredentials>,
))
    requires
        reply_fits(reply@, now_ms),
    ensures
        r.0@ == settled(current@, reply@, now_ms),
        match r.1 {
            Some(new) => refreshed(current@, reply@, now_ms) == Ok::<
                OAuthView,
                CredentialsErrorView,
            >(new@),
            None => refreshed(current@, reply@, now_ms) is Err,
        },
{
    match refresh(&current, reply, now_ms) {
        Ok(new) => {
            let c = Credentials {
                token: new.access_token.as_str().to_owned(),
                account_id: new.user_id.as_str().to_owned(),
            };
            (c, Some(new))
        },
        Err(_) => (Credentials { token: current.access_token, account_id: current.user_id }, None),
    }
}

/// What a read of the raw file gave, in mathematical form; `None` where there
/// is no file.
pub open spec fn existing_view(existing: Result<Option<FsAuth>, CredentialsError>) -> Result<
    Option<FileView>,
    CredentialsErrorView,
> {
    match existing {
        Ok(Some(f)) => Ok(Some(f@)),
        Ok(None) => Ok(None),
        Err(e) => Err(e@),
    }
}

/// The file after tokens were pushed, or why they are rejected. A new file
/// needs an account id: without one, every read of it would fail.
pub open spec fn pushed(
    existing: Result<Option<FileView>, CredentialsErrorView>,
    access_token: Seq<char>,
    refresh_token: Seq<char>,
    expires_at_ms: i64,
    user_id: Option<Seq<char>>,
) -> Result<FileView, CredentialsErrorView> {
    match existing {
        Err(e) => Err(e),
        Ok(Some(f)) => Ok(fs::with_tokens(f, access_token, refresh_token, expires_at_ms)),
        Ok(None) => match user_id {
            Some(id) if id.len() > 0 => Ok(
                fs::initial_file(
                    OAuthView { access_token, refresh_token, expires_at_ms, user_id: id },
                ),
            ),
            _ => Err(
                CredentialsErrorView::Unavailable(
                    "userID is required when bootstrapping the filesystem credential store"@,
                ),
            ),
        },
    }
}

/// The text of an optional string.
pub open spec fn optional(s: Option<String>) -> Option<Seq<char>> {
    match s {
        Some(t) => Some(t@),
        None => None,
    }
}

/// The file after tokens were pushed.
pub fn update_tokens(
    existing: Result<Option<FsAuth>, CredentialsError>,
    access_token: String,
    refresh_token: String,
    expires_at_ms: i64,
    user_id: Option<String>,
) -> (r: Result<FsAuth, CredentialsError>)
    ensures
        ({
            let want = pushed(
                existing_view(existing),
                access_token@,
                refresh_token@,
                expires_at_ms,
                optional(user_id),
            );
            match r {
                Ok(f) => want == Ok::<FileView, CredentialsErrorView>(f@),
                Err(e) => want == Err::<FileView, CredentialsErrorView>(e@),
            }
        }),
{
    match existing {
        Err(e) => Err(e),
        Ok(Some(f)) => {
            let mut f = f;
            f.update_tokens(access_token.as_str(), refresh_token.as_str(), expires_at_ms);
            Ok(f)
        },
        Ok(None) => {
            match user_id {
                Some(id) => {
                    if !id.as_str().is_empty() {
                        return Ok(
                            FsAuth::init(
                                &OAuthCredentials {
                                    access_token,
                                    refresh_token,
                                    expires_at_ms,
                                    user_id: id,
                                },
                            ),
                        );
                    }
                },
                None => {},
            }
            Err(
                CredentialsError::Unavailable(
                    "userID is required when bootstrapping the filesystem credential store".to_owned(),
                ),
            )
        },
    }
}

/// A refresh, good or bad, does not change the account.
pub proof fn law_refresh_keeps_the_account(current: OAuthView, reply: ReplyView, now_ms: i64)
    ensures
        settled(current, reply, now_ms).account_id == current.user_id,
        refreshed(current, reply, now_ms) matches Ok(new) ==> new.user_id == current.user_id,
{
}

/// A failed refresh leaves the stale token in use.
pub proof fn law_failed_refresh_keeps_the_stale_token(
    current: OAuthView,
    reply: ReplyView,
    now_ms: i64,
)
    requires
        oauth::reply_tokens(reply) is Err,
    ensures
        settled(current, reply, now_ms) == credentials::request_credentials(current),
{
}

/// A token that is still good is used without a refresh.
pub proof fn law_good_token_is_used(o: OAuthView, now_ms: i64)
    requires
        !oauth::expired(o.expires_at_ms, now_ms),
    ensures
        obtained(Ok(o), now_ms) == ObtainedView::Ready(credentials::request_credentials(o)),
{
}

/// What a refresh stores is read back: the rotated tokens survive a restart.
pub proof fn law_refreshed_tokens_are_read_back(f: FileView, reply: ReplyView, now_ms: i64)
    requires
        fs::file_credentials(f) is Ok,
        reply_fits(reply, now_ms),
        refreshed(fs::file_credentials(f)->Ok_0, reply, now_ms) is Ok,
    ensures
        ({
            let new = refreshed(fs::file_credentials(f)->Ok_0, reply, now_ms)->Ok_0;
            fs::file_credentials(
                fs::with_tokens(f, new.access_token, new.refresh_token, new.expires_at_ms),
            ) == Ok::<OAuthView, CredentialsErrorView>(new)
        }),
{
}

/// Tokens that were pushed are read back.
pub proof fn law_pushed_tokens_are_read_back(
    existing: Option<FileView>,
    access_token: Seq<char>,
    refresh_token: Seq<char>,
    expires_at_ms: i64,
    user_id: Option<Seq<char>>,
)
    requires
        access_token.len() > 0,
        existing matches Some(f) ==> f.account_id.len() > 0,
        pushed(Ok(existing), access_token, refresh_token, expires_at_ms, user_id) is Ok,
    ensures
        fs::file_credentials(
            pushed(Ok(existing), access_token, refresh_token, expires_at_ms, user_id)->Ok_0,
        ) matches Ok(o) && o.access_token == access_token && o.refresh_token == refresh_token
            && o.expires_at_ms == expires_at_ms,
{
}

} // verus!
