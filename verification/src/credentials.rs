//! Credentials for the backend.
//!
//! There are two stores: [`env`](crate::credentials::env), a token that is
//! fixed at startup, and [`fs`](crate::credentials::fs), an `auth.json` file
//! whose OAuth tokens [`refresher`](crate::credentials::refresher) keeps fresh
//! with the help of [`oauth`](crate::credentials::oauth).
pub mod env;
pub mod fs;
pub mod laws;
pub mod oauth;
pub mod refresher;

use vstd::prelude::*;

pub use env::EnvCredentials;
pub use fs::FsAuthFile;

verus! {

/// What a store can do.
#[derive(Debug, Clone, Copy, PartialEq, Eq, Structural)]
pub enum CredentialsKind {
    /// A static token without a lifecycle.
    Basic,
    /// OAuth tokens that are refreshed and rotated.
    OAuth,
}

/// What every upstream request needs.
#[derive(Debug)]
pub struct Credentials {
    /// The bearer token of the `authorization` header.
    pub token: String,
    /// The value of the `chatgpt-account-id` header.
    pub account_id: String,
}

/// Credentials in mathematical form.
pub struct CredentialsView {
    pub token: Seq<char>,
    pub account_id: Seq<char>,
}

impl Credentials {
    /// The credentials in mathematical form.
    pub open spec fn view(&self) -> CredentialsView {
        CredentialsView { token: self.token@, account_id: self.account_id@ }
    }
}

/// The whole OAuth state.
#[derive(Debug)]
pub struct OAuthCredentials {
    pub access_token: String,
    pub refresh_token: String,
    /// Milliseconds since the Unix epoch.
    pub expires_at_ms: i64,
    pub user_id: String,
}

/// The OAuth state in mathematical form.
pub struct OAuthView {
    pub access_token: Seq<char>,
    pub refresh_token: Seq<char>,
    pub expires_at_ms: i64,
    pub user_id: Seq<char>,
}

impl OAuthCredentials {
    /// The OAuth state in mathematical form.
    pub open spec fn view(&self) -> OAuthView {
        OAuthView {
            access_token: self.access_token@,
            refresh_token: self.refresh_token@,
            expires_at_ms: self.expires_at_ms,
            user_id: self.user_id@,
        }
    }
}

/// What an upstream request needs of the OAuth state.
pub open spec fn request_credentials(o: OAuthView) -> CredentialsView {
    CredentialsView { token: o.access_token, account_id: o.user_id }
}

/// Why credentials could not be had or kept.
#[derive(Debug)]
pub enum CredentialsError {
    /// The store has no OAuth lifecycle.
    OAuthUnsupported,
    Unavailable(String),
    Refresh(String),
    /// The file could not be read or written; with the message of the system.
    Storage(String),
    /// The file is not what it should be; with the message of the parser.
    Parse(String),
}

/// An error in mathematical form.
pub enum CredentialsErrorView {
    OAuthUnsupported,
    Unavailable(Seq<char>),
    Refresh(Seq<char>),
    Storage(Seq<char>),
    Parse(Seq<char>),
}

/// The message of an error.
pub open spec fn error_text(e: CredentialsErrorView) -> Seq<char> {
    match e {
        CredentialsErrorView::OAuthUnsupported => {
            "credential store does not support OAuth operations"@
        },
        CredentialsErrorView::Unavailable(m) => "credentials unavailable: "@ + m,
        CredentialsErrorView::Refresh(m) => "token refresh failed: "@ + m,
        CredentialsErrorView::Storage(m) => "credential storage error: "@ + m,
        CredentialsErrorView::Parse(m) => "credentials file is invalid: "@ + m,
    }
}

impl CredentialsError {
    /// The error in mathematical form.
    pub open spec fn view(&self) -> CredentialsErrorView {
        match self {
            CredentialsError::OAuthUnsupported => CredentialsErrorView::OAuthUnsupported,
            CredentialsError::Unavailable(m) => CredentialsErrorView::Unavailable(m@),
            CredentialsError::Refresh(m) => CredentialsErrorView::Refresh(m@),
            CredentialsError::Storage(m) => CredentialsErrorView::Storage(m@),
            CredentialsError::Parse(m) => CredentialsErrorView::Parse(m@),
        }
    }

    /// The message of the error.
    pub fn message(&self) -> (r: String)
        ensures
            r@ == error_text(self@),
    {
        match self {
            CredentialsError::OAuthUnsupported => {
                "credential store does not support OAuth operations".to_owned()
            },
            CredentialsError::Unavailable(m) => {
                let mut out: String = "credentials unavailable: ".to_owned();
                out.append(m.as_str());
                out
            },
            CredentialsError::Refresh(m) => {
                let mut out: String = "token refresh failed: ".to_owned();
                out.append(m.as_str());
                out
            },
            CredentialsError::Storage(m) => {
                let mut out: String = "credential storage error: ".to_owned();
                out.append(m.as_str());
                out
            },
            CredentialsError::Parse(m) => {
                let mut out: String = "credentials file is invalid: ".to_owned();
                out.append(m.as_str());
                out
            },
        }
    }
}

} // verus!
