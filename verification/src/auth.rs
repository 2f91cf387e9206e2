//! The credential store behind an authenticated session.
//!
//! A session owns one `AuthorizedClient`: the static identity material fixed
//! at construction together with the bearer/refresh token pair, which is only
//! ever replaced as a whole by [`AuthorizedClient::rotate`]. The network side
//! of a session (issuing requests, posting to the identity endpoint) lives
//! outside the library; it hands the identity endpoint's answer to
//! [`AuthorizedClient::apply_refresh_response`], which commits or discards it.

use vstd::prelude::*;
use vstd::string::StringExecFns;

use crate::error::HampterError;

verus! {

/// The mathematical content of a credential store: each header ingredient as
/// a sequence of characters.
pub struct CredentialsView {
    pub user_agent: Seq<char>,
    pub cf_clearance: Seq<char>,
    pub auth_token: Seq<char>,
    pub refresh_token: Seq<char>,
    pub x_app_version: Seq<char>,
    pub api_key: Seq<char>,
}

/// What the identity endpoint returns on a successful token refresh.
/// Only the access and refresh tokens are retained by the store.
pub struct TokenResponse {
    pub access_token: String,
    pub token_type: String,
    pub expires_in: u32,
    pub expires_at: u64,
    pub refresh_token: String,
}

/// The credential material of one authenticated session: static identity
/// headers plus the bearer/refresh token pair.
///
/// The two tokens are always replaced together, by [`Self::rotate`] or by a
/// committed refresh response; no operation updates one without the other.
pub struct AuthorizedClient {
    user_agent: String,
    cf_clearance: String,
    auth_token: String,
    refresh_token: String,
    x_app_version: String,
    api_key: String,
}

impl View for AuthorizedClient {
    type V = CredentialsView;

    closed spec fn view(&self) -> CredentialsView {
        CredentialsView {
            user_agent: self.user_agent@,
            cf_clearance: self.cf_clearance@,
            auth_token: self.auth_token@,
            refresh_token: self.refresh_token@,
            x_app_version: self.x_app_version@,
            api_key: self.api_key@,
        }
    }
}

impl AuthorizedClient {
    /// Creates the store from the credential material of a fresh session.
    pub fn new(
        user_agent: &str,
        cf_clearance: &str,
        auth_token: &str,
        refresh_token: &str,
        x_app_version: &str,
        api_key: &str,
    ) -> (client: AuthorizedClient)
        ensures
            client@ == (CredentialsView {
                user_agent: user_agent@,
                cf_clearance: cf_clearance@,
                auth_token: auth_token@,
                refresh_token: refresh_token@,
                x_app_version: x_app_version@,
                api_key: api_key@,
            }),
    {
        AuthorizedClient {
            user_agent: String::from_str(user_agent),
            cf_clearance: String::from_str(cf_clearance),
            auth_token: String::from_str(auth_token),
            refresh_token: String::from_str(refresh_token),
            x_app_version: String::from_str(x_app_version),
            api_key: String::from_str(api_key),
        }
    }

    /// The current bearer token.
    pub fn auth_token(&self) -> (r: &String)
        ensures
            r@ == self@.auth_token,
    {
        &self.auth_token
    }

    /// The current refresh token.
    pub fn refresh_token(&self) -> (r: &String)
        ensures
            r@ == self@.refresh_token,
    {
        &self.refresh_token
    }

    /// The API key sent to the identity endpoint.
    pub fn api_key(&self) -> (r: &String)
        ensures
            r@ == self@.api_key,
    {
        &self.api_key
    }

    /// The user-agent header value, fixed at construction.
    pub fn user_agent(&self) -> (r: &String)
        ensures
            r@ == self@.user_agent,
    {
        &self.user_agent
    }

    /// The app-version header value, fixed at construction.
    pub fn x_app_version(&self) -> (r: &String)
        ensures
            r@ == self@.x_app_version,
    {
        &self.x_app_version
    }

    /// The cookie header value carried by every outbound request.
    pub fn cookie_header(&self) -> (r: String)
        ensures
            r@ == "cf_clearance="@ + self@.cf_clearance,
    {
        let mut header = String::from_str("cf_clearance=");
        header.append(self.cf_clearance.as_str());
        header
    }

    /// The authorization header value built from the current bearer token.
    pub fn bearer_header(&self) -> (r: String)
        ensures
            r@ == "Bearer "@ + self@.auth_token,
    {
        let mut header = String::from_str("Bearer ");
        header.append(self.auth_token.as_str());
        header
    }

    /// Replaces the bearer and refresh tokens together; every other field is
    /// left as it was. Requests issued afterwards use the new bearer.
    pub fn rotate(&mut self, new_auth: String, new_refresh: String)
        ensures
            final(self)@ == (CredentialsView {
                auth_token: new_auth@,
                refresh_token: new_refresh@,
                ..old(self)@
            }),
    {
        self.auth_token = new_auth;
        self.refresh_token = new_refresh;
    }

    /// Commits or discards the identity endpoint's answer to a token-refresh
    /// request. On success both tokens are rotated in from the response; on
    /// any failure of the round trip the store is left exactly as it was and
    /// the caller gets `AuthError`, so a retry starts from the old pair.
    pub fn apply_refresh_response(
        &mut self,
        response: Result<TokenResponse, HampterError>,
    ) -> (r: Result<(), HampterError>)
        ensures
            response matches Ok(t) ==> {
                &&& final(self)@ == (CredentialsView {
                    auth_token: t.access_token@,
                    refresh_token: t.refresh_token@,
                    ..old(self)@
                })
                &&& r is Ok
            },
            response is Err ==> {
                &&& final(self)@ == old(self)@
                &&& r == Result::<(), HampterError>::Err(HampterError::AuthError)
            },
    {
        match response {
            Ok(token_response) => {
                self.rotate(token_response.access_token, token_response.refresh_token);
                Ok(())
            },
            Err(_) => Err(HampterError::AuthError),
        }
    }
}

} // verus!
