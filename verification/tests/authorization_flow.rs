use urms::authflow::{
    ack_http_response, ack_page_body, api_events_list_url, auth_endpoint, authorization_url,
    calendar_scope, code_exchange_body, events_list_url, new_pkce_pair, parse_callback_code,
    redirect_uri_for_port, refresh_exchange_body, token_endpoint, CALLBACK_TIMEOUT_SECONDS,
};
use urms::urlenc::{decode_component, encode_component};

#[test]
fn redirect_uri_carries_the_port() {
    assert_eq!(redirect_uri_for_port(43123), "http://127.0.0.1:43123/callback");
    assert_eq!(redirect_uri_for_port(80), "http://127.0.0.1:80/callback");
}

#[test]
fn endpoints_are_the_provider_contract() {
    assert_eq!(auth_endpoint(), "https://accounts.google.com/o/oauth2/v2/auth");
    assert_eq!(token_endpoint(), "https://oauth2.googleapis.com/token");
    assert!(calendar_scope().contains("calendar"));
    assert_eq!(CALLBACK_TIMEOUT_SECONDS, 120);
}

#[test]
fn authorization_url_encodes_every_component() {
    let url = authorization_url(
        "client me",
        "http://127.0.0.1:5000/callback",
        "https://scope",
        "st&te",
        "chal+lenge",
    );
    assert_eq!(
        url,
        "https://accounts.google.com/o/oauth2/v2/auth?response_type=code&client_id=client%20me\
         &redirect_uri=http%3A%2F%2F127.0.0.1%3A5000%2Fcallback&scope=https%3A%2F%2Fscope\
         &state=st%26te&code_challenge=chal%2Blenge&code_challenge_method=S256"
    );
}

#[test]
fn exchange_bodies_are_form_encoded() {
    let body = code_exchange_body("id", "se cret", "co=de", "verif", "http://x/cb");
    assert_eq!(
        body,
        "grant_type=authorization_code&code=co%3Dde&client_id=id&client_secret=se%20cret\
         &redirect_uri=http%3A%2F%2Fx%2Fcb&code_verifier=verif"
    );
    let body = refresh_exchange_body("id", "secret", "1/r");
    assert_eq!(body, "grant_type=refresh_token&refresh_token=1%2Fr&client_id=id&client_secret=secret");
}

#[test]
fn callback_code_is_extracted_and_decoded() {
    let req = "GET /callback?state=xyz&code=4%2F0Aab-cd HTTP/1.1\r\nHost: 127.0.0.1\r\n\r\n";
    assert_eq!(parse_callback_code(req).as_deref(), Some("4/0Aab-cd"));

    let req = "GET /callback?code=plain HTTP/1.1";
    assert_eq!(parse_callback_code(req).as_deref(), Some("plain"));

    // no query string, or no code parameter, yields nothing
    assert_eq!(parse_callback_code("GET /callback HTTP/1.1"), None);
    assert_eq!(parse_callback_code("GET /callback?state=only HTTP/1.1"), None);
    assert_eq!(parse_callback_code(""), None);
    // a decoded key does not match a prefix of another parameter
    assert_eq!(parse_callback_code("GET /cb?decode=1 HTTP/1.1"), None);
}

#[test]
fn acknowledgement_response_declares_its_length() {
    let body = ack_page_body();
    assert_eq!(body.len(), 56);
    let resp = ack_http_response();
    assert!(resp.starts_with("HTTP/1.1 200 OK\r\n"));
    assert!(resp.ends_with(body));
    assert!(resp.contains("Content-Length: 56\r\n\r\n"));
}

#[test]
fn percent_coding_round_trips() {
    let enc = encode_component("a b&c=d/e~f");
    assert_eq!(enc, "a%20b%26c%3Dd%2Fe~f");
    assert_eq!(decode_component(&enc).as_deref(), Some("a b&c=d/e~f"));
    // the form-encoding space also decodes
    assert_eq!(decode_component("a+b").as_deref(), Some("a b"));
    // malformed escapes are rejected
    assert_eq!(decode_component("%zz"), None);
    assert_eq!(decode_component("%2"), None);
    // control characters are not acceptable in an authorization code
    assert_eq!(decode_component("%00"), None);
}

#[test]
fn list_urls_encode_the_calendar_id() {
    assert_eq!(
        events_list_url("primary", 5),
        "https://www.googleapis.com/calendar/v3/calendars/primary/events?maxResults=5"
    );
    assert_eq!(
        events_list_url("a b@c", 10),
        "https://www.googleapis.com/calendar/v3/calendars/a%20b%40c/events?maxResults=10"
    );
    assert_eq!(
        api_events_list_url("k+1", "primary", "2024-01-01T00:00:00+00:00", 5),
        "https://www.googleapis.com/calendar/v3/calendars/primary/events?key=k%2B1\
         &timeMin=2024-01-01T00%3A00%3A00%2B00%3A00&maxResults=5\
         &singleEvents=true&orderBy=startTime"
    );
}

#[test]
fn pkce_pair_has_rfc_shaped_verifier() {
    let (verifier, challenge) = new_pkce_pair();
    assert!(verifier.len() >= 43 && verifier.len() <= 128);
    assert_eq!(challenge.len(), 43);
    // base64url alphabet only
    assert!(challenge.chars().all(|c| c.is_ascii_alphanumeric() || c == '-' || c == '_'));
    // the challenge is a digest, never the verifier itself
    assert_ne!(verifier, challenge);
}
