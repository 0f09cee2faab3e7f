use urms::codec::{parse_token, render_token};
use urms::strutil::{parse_u64, render_u64};
use urms::token::{OAuthToken, TokenResponse, token_from_response};

fn roundtrip(t: &OAuthToken) -> OAuthToken {
    let record = render_token(t);
    parse_token(&record).expect("a rendered record parses")
}

#[test]
fn token_record_round_trip_full() {
    let t = OAuthToken {
        access_token: "ya29.sample".to_string(),
        refresh_token: Some("1/refresh".to_string()),
        token_type: "Bearer".to_string(),
        expires_in: 3600,
        scope: "https://www.googleapis.com/auth/calendar.events.readonly".to_string(),
    };
    let back = roundtrip(&t);
    assert_eq!(back.access_token, "ya29.sample");
    assert_eq!(back.refresh_token.as_deref(), Some("1/refresh"));
    assert_eq!(back.token_type, "Bearer");
    assert_eq!(back.expires_in, 3600);
    assert_eq!(back.scope, "https://www.googleapis.com/auth/calendar.events.readonly");
}

#[test]
fn token_record_round_trip_without_refresh() {
    let t = OAuthToken {
        access_token: "A2".to_string(),
        refresh_token: None,
        token_type: "Bearer".to_string(),
        expires_in: 0,
        scope: String::new(),
    };
    let back = roundtrip(&t);
    assert_eq!(back.access_token, "A2");
    assert_eq!(back.refresh_token, None);
    assert_eq!(back.expires_in, 0);
    assert_eq!(back.scope, "");
}

#[test]
fn token_record_round_trip_awkward_characters() {
    let t = OAuthToken {
        access_token: "line\nbreak".to_string(),
        refresh_token: Some("back\\slash\\n".to_string()),
        token_type: "Bearer".to_string(),
        expires_in: u64::MAX,
        scope: "-starts+with&symbols\n\\".to_string(),
    };
    let back = roundtrip(&t);
    assert_eq!(back.access_token, "line\nbreak");
    assert_eq!(back.refresh_token.as_deref(), Some("back\\slash\\n"));
    assert_eq!(back.expires_in, u64::MAX);
    assert_eq!(back.scope, "-starts+with&symbols\n\\");
}

#[test]
fn token_record_exact_shape() {
    let t = OAuthToken {
        access_token: "A1".to_string(),
        refresh_token: Some("R1".to_string()),
        token_type: "Bearer".to_string(),
        expires_in: 3600,
        scope: "cal".to_string(),
    };
    assert_eq!(render_token(&t), "A1\n+R1\nBearer\n3600\ncal");
    let t2 = OAuthToken { refresh_token: None, ..t };
    assert_eq!(render_token(&t2), "A1\n-\nBearer\n3600\ncal");
}

#[test]
fn malformed_records_are_rejected() {
    assert!(parse_token("").is_none());
    assert!(parse_token("only\nfour\nlines\nhere").is_none());
    assert!(parse_token("a\n+r\nBearer\n3600\nscope\nextra").is_none());
    // a bare backslash is an unfinished escape
    assert!(parse_token("a\\\n+r\nBearer\n3600\ns").is_none());
    // the refresh line must start with its presence marker
    assert!(parse_token("a\nr\nBearer\n3600\ns").is_none());
    // the expiry must be a decimal number that fits
    assert!(parse_token("a\n-\nBearer\nx600\ns").is_none());
    assert!(parse_token("a\n-\nBearer\n99999999999999999999999\ns").is_none());
    assert!(parse_token("a\n-\nBearer\n\ns").is_none());
}

#[test]
fn decimal_round_trip() {
    for n in [0u64, 1, 9, 10, 42, 65535, u64::MAX] {
        let s = render_u64(n);
        assert_eq!(parse_u64(&s), Some(n));
    }
    assert_eq!(render_u64(1024), "1024");
    assert_eq!(parse_u64("007"), Some(7));
    assert_eq!(parse_u64(""), None);
    assert_eq!(parse_u64("12a"), None);
    assert_eq!(parse_u64("18446744073709551615"), Some(u64::MAX));
    assert_eq!(parse_u64("18446744073709551616"), None);
}

#[test]
fn token_from_response_defaults_and_rejection() {
    let resp = TokenResponse {
        access_token: Some("A2".to_string()),
        refresh_token: None,
        token_type: None,
        expires_in: None,
        scope: None,
    };
    let t = token_from_response(resp).unwrap();
    assert_eq!(t.access_token, "A2");
    assert_eq!(t.refresh_token, None);
    assert_eq!(t.token_type, "Bearer");
    assert_eq!(t.expires_in, 0);
    assert_eq!(t.scope, "");

    let bad = TokenResponse {
        access_token: None,
        refresh_token: Some("R".to_string()),
        token_type: None,
        expires_in: None,
        scope: None,
    };
    assert!(token_from_response(bad).is_err());
}
