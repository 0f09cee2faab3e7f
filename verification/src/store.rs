//! The secure credential store and the token refresh manager's
//! bookkeeping.
//!
//! The store persists client identity and token material keyed by
//! stable logical names, backed by the host's secret-storage facility.
//! There is no in-memory cache: every read hits the backing store,
//! since a token may be refreshed by another process instance. The
//! backing store is shared mutable state outside this process, so the
//! contracts here promise only what holds of every outcome; what can be
//! proved — that a rendered token record reads back field for field —
//! lives in [`crate::codec`].

use vstd::prelude::*;

use crate::codec::{parse_token, render_token};
use crate::token::{ClientCredentials, OAuthToken, TokenResponse, token_from_response};

verus! {

/// Why a store operation failed.
#[derive(Debug)]
pub enum StoreError {
    /// No secret is stored under the requested key.
    NotFound,
    /// The backing store refused the operation (locked store,
    /// permission denied, malformed stored record).
    Backend(String),
}

/// The service name under which this subsystem keeps its secrets.
pub fn service_name() -> (r: &'static str)
    ensures
        r@ == "URMS"@,
{
    "URMS"
}

/// Logical key of the current OAuth token record.
pub fn token_key() -> (r: &'static str)
    ensures
        r@ == "google_oauth_token"@,
{
    "google_oauth_token"
}

/// Logical key of the stored OAuth client id.
pub fn client_id_key() -> (r: &'static str)
    ensures
        r@ == "google_oauth_client_id"@,
{
    "google_oauth_client_id"
}

/// Logical key of the stored OAuth client secret.
pub fn client_secret_key() -> (r: &'static str)
    ensures
        r@ == "google_oauth_client_secret"@,
{
    "google_oauth_client_secret"
}

/// Logical key of the stored calendar API key.
pub fn api_key_key() -> (r: &'static str)
    ensures
        r@ == "google_api_key"@,
{
    "google_api_key"
}

/// Relies on `keyring::Entry::new` and `Entry::set_password`: writes
/// `value` as the secret under `(service, key)` in the host credential
/// store, replacing any previous secret there.
#[verifier::external_body]
fn keyring_set(service: &str, key: &str, value: &str) -> (r: Result<(), StoreError>) {
    match keyring::Entry::new(service, key) {
        Ok(entry) => match entry.set_password(value) {
            Ok(()) => Ok(()),
            Err(e) => Err(StoreError::Backend(e.to_string())),
        },
        Err(e) => Err(StoreError::Backend(e.to_string())),
    }
}

/// Relies on `keyring::Entry::new` and `Entry::get_password`: reads the
/// secret under `(service, key)`; `NoEntry` means nothing is stored
/// there. What comes back depends on the host store, which other
/// processes write too, so nothing more is promised of the result.
#[verifier::external_body]
fn keyring_get(service: &str, key: &str) -> (r: Result<String, StoreError>) {
    match keyring::Entry::new(service, key) {
        Ok(entry) => match entry.get_password() {
            Ok(s) => Ok(s),
            Err(keyring::Error::NoEntry) => Err(StoreError::NotFound),
            Err(e) => Err(StoreError::Backend(e.to_string())),
        },
        Err(e) => Err(StoreError::Backend(e.to_string())),
    }
}

/// Relies on `keyring::Entry::new` and `Entry::delete_credential`:
/// removes the secret under `(service, key)`. A key with nothing under
/// it is already in the asked-for state, so `NoEntry` reads as success.
#[verifier::external_body]
fn keyring_delete(service: &str, key: &str) -> (r: Result<(), StoreError>) {
    match keyring::Entry::new(service, key) {
        Ok(entry) => match entry.delete_credential() {
            Ok(()) => Ok(()),
            Err(keyring::Error::NoEntry) => Ok(()),
            Err(e) => Err(StoreError::Backend(e.to_string())),
        },
        Err(e) => Err(StoreError::Backend(e.to_string())),
    }
}

/// The secure credential store: secrets keyed by stable logical names
/// under one service name.
#[derive(Debug)]
pub struct CredentialStore {
    pub service: String,
}

impl CredentialStore {
    /// A store over this subsystem's service name.
    pub fn new() -> (r: CredentialStore)
        ensures
            r.service@ == "URMS"@,
    {
        CredentialStore { service: String::from_str(service_name()) }
    }

    /// Persist a secret under a logical key. Write failures surface as
    /// the error; they are never silently swallowed.
    pub fn put(&self, key: &str, secret: &str) -> (r: Result<(), StoreError>) {
        keyring_set(self.service.as_str(), key, secret)
    }

    /// Read the secret under a logical key; `NotFound` when nothing is
    /// stored there, which callers during credential lookup treat as
    /// "not connected yet".
    pub fn get(&self, key: &str) -> (r: Result<String, StoreError>) {
        keyring_get(self.service.as_str(), key)
    }

    /// Remove the secret under a logical key.
    pub fn delete(&self, key: &str) -> (r: Result<(), StoreError>) {
        keyring_delete(self.service.as_str(), key)
    }

    /// Persist `t` as the current token record, overwriting the
    /// previous one. The written record is exactly
    /// [`crate::codec::render_token_view`] of the token, so a read
    /// through [`Self::load_token`] recovers it field for field.
    pub fn store_token(&self, t: &OAuthToken) -> (r: Result<(), StoreError>) {
        let record = render_token(t);
        self.put(token_key(), record.as_str())
    }

    /// Load the current token record.
    ///
    /// Whatever the backing store held, a token is returned only if the
    /// stored secret is a well-formed record — which strings those are
    /// is exactly [`crate::codec::parse_token`]'s contract; a malformed
    /// one surfaces as a `Backend` error, an absent one as `NotFound`.
    pub fn load_token(&self) -> (r: Result<OAuthToken, StoreError>) {
        match self.get(token_key()) {
            Ok(record) => match parse_token(record.as_str()) {
                Some(t) => Ok(t),
                None => Err(
                    StoreError::Backend(String::from_str("stored token record is malformed")),
                ),
            },
            Err(e) => Err(e),
        }
    }

    /// Persist the client identity needed later for refresh exchanges.
    pub fn store_client_credentials(&self, c: &ClientCredentials) -> (r: Result<(), StoreError>) {
        match self.put(client_id_key(), c.client_id.as_str()) {
            Ok(()) => self.put(client_secret_key(), c.client_secret.as_str()),
            Err(e) => Err(e),
        }
    }

    /// Load the stored client identity.
    pub fn load_client_credentials(&self) -> (r: Result<ClientCredentials, StoreError>) {
        let client_id = match self.get(client_id_key()) {
            Ok(v) => v,
            Err(e) => {
                return Err(e);
            },
        };
        match self.get(client_secret_key()) {
            Ok(client_secret) => Ok(ClientCredentials { client_id, client_secret }),
            Err(e) => Err(e),
        }
    }

    /// Remove the token record and the client identity: the account is
    /// disconnected until the authorization flow runs again.
    pub fn delete_all(&self) -> (r: Result<(), StoreError>) {
        let r1 = self.delete(token_key());
        let r2 = self.delete(client_id_key());
        let r3 = self.delete(client_secret_key());
        match (r1, r2, r3) {
            (Ok(()), Ok(()), Ok(())) => Ok(()),
            (Err(e), _, _) => Err(e),
            (_, Err(e), _) => Err(e),
            (_, _, Err(e)) => Err(e),
        }
    }
}

/// Why a refresh failed.
#[derive(Debug)]
pub enum RefreshError {
    /// The stored token has no refresh token: terminal and
    /// user-visible, the account must be reauthorized. Never retried.
    ReauthorizationRequired,
    /// The provider rejected the exchange (invalid refresh token,
    /// revoked grant) or answered with an unusable payload. Callers
    /// treat this as reauthorization-required and must not auto-retry.
    GrantRevoked(String),
    /// The new token could not be persisted.
    Store(String),
}

/// The refresh manager's first half: what to send to the token
/// endpoint.
///
/// Requires nothing of the token, and answers exactly: the stored
/// refresh token when there is one, and `ReauthorizationRequired` —
/// immediately, with no exchange attempted — when there is none.
pub fn prepare_refresh(t: &OAuthToken) -> (r: Result<String, RefreshError>)
    ensures
        match r {
            Ok(rt) => t@.refresh_token == Some(rt@),
            Err(e) => t@.refresh_token is None && e is ReauthorizationRequired,
        },
{
    match &t.refresh_token {
        Some(rt) => Ok(rt.clone()),
        None => Err(RefreshError::ReauthorizationRequired),
    }
}

/// The refresh manager's second half: given the provider's answer to a
/// refresh exchange, build the new token, persist it (overwriting the
/// old record — the previous refresh token is discarded, since
/// providers may rotate refresh tokens), and return it.
pub fn complete_refresh(store: &CredentialStore, resp: TokenResponse) -> (r: Result<
    OAuthToken,
    RefreshError,
>)
    ensures
        match r {
            Ok(t) => {
                &&& resp.access_token matches Some(a) && t@.access_token == a@
                &&& t@.refresh_token == match resp.refresh_token {
                    Some(s) => Some(s@),
                    None => None::<Seq<char>>,
                }
                &&& t@.token_type == match resp.token_type {
                    Some(s) => s@,
                    None => "Bearer"@,
                }
                &&& t@.expires_in == match resp.expires_in {
                    Some(n) => n,
                    None => 0u64,
                }
                &&& t@.scope == match resp.scope {
                    Some(s) => s@,
                    None => ""@,
                }
            },
            Err(e) => {
                &&& !(e is ReauthorizationRequired)
                &&& e is GrantRevoked <==> resp.access_token is None
            },
        },
{
    let token = match token_from_response(resp) {
        Ok(t) => t,
        Err(m) => {
            return Err(RefreshError::GrantRevoked(m));
        },
    };
    match store.store_token(&token) {
        Ok(()) => Ok(token),
        Err(StoreError::NotFound) => Err(
            RefreshError::Store(String::from_str("credential store rejected the write")),
        ),
        Err(StoreError::Backend(m)) => Err(RefreshError::Store(m)),
    }
}

} // verus!
