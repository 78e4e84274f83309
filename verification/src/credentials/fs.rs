//! The credentials file: `auth.json` on a writable volume.
use super::CredentialsError;
use super::CredentialsErrorView;
use super::OAuthCredentials;
use super::OAuthView;
use std::path::PathBuf;
use vstd::prelude::*;

verus! {

/// `std::path::PathBuf`.
#[verifier::external_type_specification]
#[verifier::external_body]
pub struct ExPathBuf(PathBuf);

/// What the file holds: `{"tokens": {..}}`.
#[derive(Debug)]
pub struct FsAuth {
    pub tokens: FsTokens,
}

/// The tokens in the file. A missing text is empty, and a missing expiry zero.
#[derive(Debug)]
pub struct FsTokens {
    pub id_token: String,
    pub access_token: String,
    pub refresh_token: String,
    pub account_id: String,
    /// Milliseconds since the Unix epoch.
    pub expires_at: i64,
}

/// What the file holds, in mathematical form.
pub struct FileView {
    pub id_token: Seq<char>,
    pub access_token: Seq<char>,
    pub refresh_token: Seq<char>,
    pub account_id: Seq<char>,
    pub expires_at: i64,
}

/// Whether the expiry is left out of the file.
pub fn is_zero(v: &i64) -> (r: bool)
    ensures
        r == (*v == 0),
{
    *v == 0
}

/// The token of a file: the access token, or the id token where there is none.
pub open spec fn file_token(f: FileView) -> Seq<char> {
    if f.access_token.len() == 0 {
        f.id_token
    } else {
        f.access_token
    }
}

/// The OAuth state that a file holds; an error where it lacks a token or the
/// account id.
pub open spec fn file_credentials(f: FileView) -> Result<OAuthView, CredentialsErrorView> {
    if file_token(f).len() == 0 || f.account_id.len() == 0 {
        Err(
            CredentialsErrorView::Unavailable(
                "missing token or account_id in credentials file"@,
            ),
        )
    } else {
        Ok(
            OAuthView {
                access_token: file_token(f),
                refresh_token: f.refresh_token,
                expires_at_ms: f.expires_at,
                user_id: f.account_id,
            },
        )
    }
}

/// A file with new tokens. The id token and the account id stay.
pub open spec fn with_tokens(
    f: FileView,
    access_token: Seq<char>,
    refresh_token: Seq<char>,
    expires_at: i64,
) -> FileView {
    FileView { access_token, refresh_token, expires_at, ..f }
}

/// The file that a new store starts with.
pub open spec fn initial_file(o: OAuthView) -> FileView {
    FileView {
        id_token: Seq::empty(),
        access_token: o.access_token,
        refresh_token: o.refresh_token,
        account_id: o.user_id,
        expires_at: o.expires_at_ms,
    }
}

impl FsAuth {
    /// What the file holds, in mathematical form.
    pub open spec fn view(&self) -> FileView {
        FileView {
            id_token: self.tokens.id_token@,
            access_token: self.tokens.access_token@,
            refresh_token: self.tokens.refresh_token@,
            account_id: self.tokens.account_id@,
            expires_at: self.tokens.expires_at,
        }
    }

    /// The OAuth state that the file holds.
    pub fn read(self) -> (r: Result<OAuthCredentials, CredentialsError>)
        ensures
            match r {
                Ok(o) => file_credentials(self@) == Ok::<OAuthView, CredentialsErrorView>(o@),
                Err(e) => file_credentials(self@) == Err::<OAuthView, CredentialsErrorView>(e@),
            },
    {
        let tokens = self.tokens;
        let token: String = if tokens.access_token.as_str().is_empty() {
            tokens.id_token
        } else {
            tokens.access_token
        };
        if token.as_str().is_empty() || tokens.account_id.as_str().is_empty() {
            return Err(
                CredentialsError::Unavailable(
                    "missing token or account_id in credentials file".to_owned(),
                ),
            );
        }
        Ok(
            OAuthCredentials {
                access_token: token,
                refresh_token: tokens.refresh_token,
                expires_at_ms: tokens.expires_at,
                user_id: tokens.account_id,
            },
        )
    }

    /// Replaces the tokens. The id token and the account id stay.
    pub fn update_tokens(&mut self, access_token: &str, refresh_token: &str, expires_at_ms: i64)
        ensures
            final(self)@ == with_tokens(
                old(self)@,
                access_token@,
                refresh_token@,
                expires_at_ms,
            ),
    {
        self.tokens.access_token = access_token.to_owned();
        self.tokens.refresh_token = refresh_token.to_owned();
        self.tokens.expires_at = expires_at_ms;
    }

    /// The file that a new store starts with.
    pub fn init(creds: &OAuthCredentials) -> (r: FsAuth)
        ensures
            r@ == initial_file(creds@),
    {
        FsAuth {
            tokens: FsTokens {
                id_token: String::new(),
                access_token: creds.access_token.as_str().to_owned(),
                refresh_token: creds.refresh_token.as_str().to_owned(),
                account_id: creds.user_id.as_str().to_owned(),
                expires_at: creds.expires_at_ms,
            },
        }
    }
}

/// Where the file is.
#[derive(Debug)]
pub struct FsAuthFile {
    pub path: PathBuf,
}

impl FsAuthFile {
    /// The file at this path.
    pub fn new(path: PathBuf) -> (r: Self)
        ensures
            r.path == path,
    {
        FsAuthFile { path }
    }

    /// The path of the file.
    pub fn path(&self) -> (r: &PathBuf)
        ensures
            *r == self.path,
    {
        &self.path
    }
}

/// A new store gives back the state that it was started with.
pub proof fn law_initial_file_is_read_back(o: OAuthView)
    requires
        o.access_token.len() > 0,
        o.user_id.len() > 0,
    ensures
        file_credentials(initial_file(o)) == Ok::<OAuthView, CredentialsErrorView>(o),
{
}

/// New tokens are read back, with the account id as it was.
pub proof fn law_new_tokens_are_read_back(
    f: FileView,
    access_token: Seq<char>,
    refresh_token: Seq<char>,
    expires_at: i64,
)
    requires
        access_token.len() > 0,
        f.account_id.len() > 0,
    ensures
        file_credentials(with_tokens(f, access_token, refresh_token, expires_at)) == Ok::<
            OAuthView,
            CredentialsErrorView,
        >(
            OAuthView {
                access_token,
                refresh_token,
                expires_at_ms: expires_at,
                user_id: f.account_id,
            },
        ),
        with_tokens(f, access_token, refresh_token, expires_at).id_token == f.id_token,
{
}

} // verus!
