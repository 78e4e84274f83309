//! Credentials that are fixed at startup.
use super::Credentials;
use super::CredentialsKind;
use super::CredentialsView;
use crate::credentials::CredentialsError;
use crate::credentials::OAuthCredentials;
use vstd::prelude::*;

verus! {

/// A static token and account id.
#[derive(Debug)]
pub struct EnvCredentials {
    pub token: String,
    pub account_id: String,
}

impl EnvCredentials {
    /// The store of this token and account id.
    pub fn new(token: String, account_id: String) -> (r: Self)
        ensures
            r.token == token,
            r.account_id == account_id,
    {
        EnvCredentials { token, account_id }
    }

    /// A static token has no lifecycle.
    pub fn kind(&self) -> (r: CredentialsKind)
        ensures
            r == CredentialsKind::Basic,
    {
        CredentialsKind::Basic
    }

    /// The token and account id as they are, empty or not: the backend rejects
    /// a request without them.
    pub fn get_credentials(&self) -> (r: Result<Credentials, CredentialsError>)
        ensures
            r matches Ok(c) && c@ == (CredentialsView {
                token: self.token@,
                account_id: self.account_id@,
            }),
    {
        Ok(
            Credentials {
                token: self.token.as_str().to_owned(),
                account_id: self.account_id.as_str().to_owned(),
            },
        )
    }

    /// There is nothing to refresh.
    pub fn refresh_credentials(&self) -> (r: Result<(), CredentialsError>)
        ensures
            r is Ok,
    {
        Ok(())
    }

    /// There is no OAuth state.
    pub fn full_credentials(&self) -> (r: Result<OAuthCredentials, CredentialsError>)
        ensures
            r matches Err(CredentialsError::OAuthUnsupported),
    {
        Err(CredentialsError::OAuthUnsupported)
    }

    /// There are no OAuth tokens to replace.
    pub fn update_tokens(
        &self,
        _access_token: String,
        _refresh_token: String,
        _expires_at_ms: i64,
        _user_id: Option<String>,
    ) -> (r: Result<(), CredentialsError>)
        ensures
            r matches Err(CredentialsError::OAuthUnsupported),
    {
        Err(CredentialsError::OAuthUnsupported)
    }
}

} // verus!
