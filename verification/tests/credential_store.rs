// These tests run against the platform credential store the crate
// builds with (on Linux, the kernel key-retention service). A test
// host may not offer one — a container often has no session keyring —
// so each writing test first probes the store and checks the full
// round trip only where it is usable; an unusable store ends the test,
// as the interactive originals of these tests were skipped outside a
// desktop session. The probe retries, since the first write of a fresh
// process may fail while its session keyring comes into being. Each
// test uses its own service name so they stay independent.

use urms::store::{complete_refresh, prepare_refresh, CredentialStore, RefreshError, StoreError};
use urms::token::{ClientCredentials, OAuthToken, TokenResponse};

fn sample_token() -> OAuthToken {
    OAuthToken {
        access_token: "ya29.sample".to_string(),
        refresh_token: Some("1/refresh".to_string()),
        token_type: "Bearer".to_string(),
        expires_in: 3600,
        scope: "calendar".to_string(),
    }
}

/// Can this host's credential store take a write? A refused write must
/// come back as a `Backend` error.
fn store_usable(store: &CredentialStore) -> bool {
    let mut usable = false;
    for _ in 0..3 {
        match store.put("google_api_key", "probe") {
            Ok(()) => {
                usable = true;
                break;
            }
            Err(StoreError::Backend(_)) => {}
            Err(e) => panic!("a refused write must surface as Backend, got {:?}", e),
        }
    }
    let _ = store.delete("google_api_key");
    usable
}

#[test]
fn test_get_oauth_tokens_roundtrip() {
    let store = CredentialStore::new();
    if !store_usable(&store) {
        return;
    }
    store.store_token(&sample_token()).expect("store token");
    let got = store.load_token().expect("get tokens");
    assert_eq!(got.access_token, "ya29.sample");
    assert_eq!(got.refresh_token.as_deref(), Some("1/refresh"));
    assert_eq!(got.token_type, "Bearer");
    assert_eq!(got.expires_in, 3600);
    assert_eq!(got.scope, "calendar");
    let _ = store.delete_all();
}

#[test]
fn test_disconnect_oauth_removes_keys() {
    let store = CredentialStore { service: "URMS-disconnect".to_string() };
    if !store_usable(&store) {
        return;
    }
    store.store_token(&sample_token()).expect("store token");
    store
        .store_client_credentials(&ClientCredentials {
            client_id: "id".to_string(),
            client_secret: "secret".to_string(),
        })
        .expect("store credentials");

    store.delete_all().expect("disconnect");

    match store.load_token() {
        Err(StoreError::NotFound) => (),
        _ => panic!("the token should be gone"),
    }
    assert!(store.load_client_credentials().is_err());
}

#[test]
fn client_credentials_roundtrip() {
    let store = CredentialStore { service: "URMS-creds".to_string() };
    let creds = ClientCredentials {
        client_id: "client-1".to_string(),
        client_secret: "sh".to_string(),
    };
    if !store_usable(&store) {
        return;
    }
    store.store_client_credentials(&creds).expect("store");
    let got = store.load_client_credentials().expect("load");
    assert_eq!(got.client_id, "client-1");
    assert_eq!(got.client_secret, "sh");
    let _ = store.delete_all();
}

#[test]
fn absent_secrets_read_as_not_found() {
    let store = CredentialStore { service: "URMS-absent".to_string() };
    match store.load_token() {
        Err(StoreError::NotFound) => (),
        _ => panic!("an absent token must read as NotFound"),
    }
    match store.get("google_api_key") {
        Err(StoreError::NotFound) => (),
        _ => panic!("an absent key must read as NotFound"),
    }
    assert!(store.load_client_credentials().is_err());
    // deleting an absent key is already the asked-for state
    assert!(store.delete("google_api_key").is_ok());
}

#[test]
fn raw_secrets_roundtrip_by_key() {
    let store = CredentialStore { service: "URMS-raw".to_string() };
    if !store_usable(&store) {
        return;
    }
    store.put("google_api_key", "k-123").expect("put");
    assert_eq!(store.get("google_api_key").unwrap(), "k-123");
    store.delete("google_api_key").expect("delete");
    match store.get("google_api_key") {
        Err(StoreError::NotFound) => (),
        _ => panic!("the key should be gone"),
    }
}

#[test]
fn refresh_requires_a_refresh_token() {
    let with = sample_token();
    assert_eq!(prepare_refresh(&with).unwrap(), "1/refresh");

    let without = OAuthToken { refresh_token: None, ..sample_token() };
    match prepare_refresh(&without) {
        Err(RefreshError::ReauthorizationRequired) => (),
        _ => panic!("a token without a refresh token must not be refreshed"),
    }
}

/// After a refresh that yields a new access token, the store holds the
/// new token; the previous refresh token is discarded.
#[test]
fn refresh_persists_the_new_token() {
    let store = CredentialStore { service: "URMS-refresh".to_string() };
    let resp = TokenResponse {
        access_token: Some("A2".to_string()),
        refresh_token: None,
        token_type: None,
        expires_in: None,
        scope: None,
    };
    if !store_usable(&store) {
        // the persist failure surfaces; it is never GrantRevoked
        match complete_refresh(&store, resp) {
            Err(RefreshError::GrantRevoked(_)) => panic!("a store failure is not a revoked grant"),
            Err(RefreshError::ReauthorizationRequired) => {
                panic!("a store failure does not demand reauthorization")
            }
            _ => return,
        }
    }
    store.store_token(&sample_token()).expect("store old token");

    let new_token = complete_refresh(&store, resp).expect("refresh completes");
    assert_eq!(new_token.access_token, "A2");

    let stored = store.load_token().expect("load refreshed token");
    assert_eq!(stored.access_token, "A2");
    assert_eq!(stored.refresh_token, None);
    let _ = store.delete_all();
}

#[test]
fn refresh_rejects_a_malformed_response() {
    let store = CredentialStore { service: "URMS-badrefresh".to_string() };
    let resp = TokenResponse {
        access_token: None,
        refresh_token: None,
        token_type: None,
        expires_in: None,
        scope: None,
    };
    match complete_refresh(&store, resp) {
        Err(RefreshError::GrantRevoked(_)) => (),
        _ => panic!("a response without an access token must be rejected"),
    }
}
