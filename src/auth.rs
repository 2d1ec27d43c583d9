//! Account records and the forms of the OAuth token exchange.
use vstd::prelude::*;

verus! {

/// A user account as the chat platform reports it.
#[derive(Debug, Clone)]
pub struct User {
    pub id: String,
    pub username: String,
    pub avatar: String,
}

/// Tokens granted by the OAuth token endpoint.
#[derive(Debug, Clone)]
pub struct AccessToken {
    pub access_token: String,
    pub token_type: String,
    /// Lifetime of the access token, in seconds.
    pub expires_in: u64,
    pub refresh_token: String,
}

/// The form that trades an authorization code for tokens.
#[derive(Debug, Clone, Copy)]
pub struct ExchangeCode<'data> {
    pub client_id: &'data str,
    pub client_secret: &'data str,
    pub code: &'data str,
    pub grant_type: &'static str,
    pub redirect_uri: &'data str,
}

/// The form that trades a refresh token for new tokens.
#[derive(Debug, Clone, Copy)]
pub struct RefreshCode<'data> {
    pub client_id: &'data str,
    pub client_secret: &'data str,
    pub refresh_token: &'data str,
    pub grant_type: &'static str,
}

impl<'data> ExchangeCode<'data> {
    /// The exchange form for `code`, with the `authorization_code` grant.
    pub fn new(
        client_id: &'data str,
        client_secret: &'data str,
        code: &'data str,
        redirect_uri: &'data str,
    ) -> (r: ExchangeCode<'data>)
        ensures
            r.client_id@ == client_id@,
            r.client_secret@ == client_secret@,
            r.code@ == code@,
            r.redirect_uri@ == redirect_uri@,
            r.grant_type@ == seq!['a', 'u', 't', 'h', 'o', 'r', 'i', 'z', 'a', 't', 'i', 'o', 'n', '_', 'c', 'o', 'd', 'e'],
    {
        proof {
            reveal_strlit("authorization_code");
        }
        ExchangeCode { client_id, client_secret, code, grant_type: "authorization_code", redirect_uri }
    }
}

impl<'data> RefreshCode<'data> {
    /// The refresh form for `refresh_token`, with the `refresh_token` grant.
    pub fn new(client_id: &'data str, client_secret: &'data str, refresh_token: &'data str) -> (r:
        RefreshCode<'data>)
        ensures
            r.client_id@ == client_id@,
            r.client_secret@ == client_secret@,
            r.refresh_token@ == refresh_token@,
            r.grant_type@ == seq!['r', 'e', 'f', 'r', 'e', 's', 'h', '_', 't', 'o', 'k', 'e', 'n'],
    {
        proof {
            reveal_strlit("refresh_token");
        }
        RefreshCode { client_id, client_secret, refresh_token, grant_type: "refresh_token" }
    }
}

} // verus!
