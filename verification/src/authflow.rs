//! The loopback authorization flow's verified pieces.
//!
//! One interactive authorization binds an ephemeral local listener,
//! opens the provider's authorization URL in a browser, waits for the
//! single redirect request on the loopback socket, redeems the
//! authorization code (with PKCE) at the token endpoint, and persists
//! the result. Socket, browser and HTTP work run outside; this module
//! builds the URL, the exchange bodies and the acknowledgement
//! response, parses the callback request for the `code` parameter, and
//! persists the outcome.

use vstd::prelude::*;

use vstd::string::StringSliceAdditionalSpecFns;
use vstd::utf8::encode_utf8;

use crate::store::{CredentialStore, StoreError};
use crate::strutil::{dec_digits, render_u64, str_eq};
use crate::token::{ClientCredentials, OAuthToken, TokenResponse, token_from_response};
use crate::urlenc::{decode_component, encode_component, percent_decode, percent_encode};

verus! {

/// The provider's authorization endpoint.
pub fn auth_endpoint() -> (r: &'static str)
    ensures
        r@ == "https://accounts.google.com/o/oauth2/v2/auth"@,
{
    "https://accounts.google.com/o/oauth2/v2/auth"
}

/// The provider's token endpoint.
pub fn token_endpoint() -> (r: &'static str)
    ensures
        r@ == "https://oauth2.googleapis.com/token"@,
{
    "https://oauth2.googleapis.com/token"
}

/// The calendar scope the flow requests.
pub fn calendar_scope() -> (r: &'static str)
    ensures
        r@ == "https://www.googleapis.com/auth/calendar.events.readonly"@,
{
    "https://www.googleapis.com/auth/calendar.events.readonly"
}

/// The loopback redirect URI for a bound ephemeral port.
pub fn redirect_uri_for_port(port: u16) -> (r: String)
    ensures
        r@ == "http://127.0.0.1:"@ + dec_digits(port as nat) + "/callback"@,
{
    let mut out = String::from_str("http://127.0.0.1:");
    let digits = render_u64(port as u64);
    out.append(digits.as_str());
    out.append("/callback");
    out
}

/// How long the flow waits for the browser round-trip, in seconds; with
/// no callback by then it fails with `AuthorizationTimeout`.
pub const CALLBACK_TIMEOUT_SECONDS: u64 = 120;

/// A name for what `oauth2::PkceCodeChallenge::from_code_verifier_sha256`
/// computes: the base64url-encoded SHA-256 digest of the verifier, a
/// function of the verifier alone.
pub uninterp spec fn pkce_challenge_of(verifier: Seq<char>) -> Seq<char>;

/// Relies on `oauth2::PkceCodeChallenge::new_random_sha256`: draws a
/// fresh random code verifier and pairs it with its SHA-256 challenge.
/// The verifier is random, so nothing is promised of it; the challenge
/// is a function of the verifier alone.
#[verifier::external_body]
pub fn new_pkce_pair() -> (r: (String, String))
    ensures
        r.1@ == pkce_challenge_of(r.0@),
{
    let (challenge, verifier) = oauth2::PkceCodeChallenge::new_random_sha256();
    (verifier.secret().clone(), challenge.as_str().to_string())
}

/// Relies on `oauth2::CsrfToken::new_random`: a freshly drawn random
/// state value; nothing is promised of it.
#[verifier::external_body]
pub fn new_state_token() -> (r: String) {
    oauth2::CsrfToken::new_random().secret().clone()
}

/// The provider authorization URL for one flow run: authorization-code
/// response type, the client id, the loopback redirect, the calendar
/// scope, a state value, and the PKCE challenge, each percent-encoded.
pub open spec fn authorization_url_view(
    client_id: Seq<char>,
    redirect_uri: Seq<char>,
    scope: Seq<char>,
    state: Seq<char>,
    challenge: Seq<char>,
) -> Seq<char> {
    "https://accounts.google.com/o/oauth2/v2/auth"@ + "?response_type=code&client_id="@
        + percent_encode(encode_utf8(client_id)) + "&redirect_uri="@ + percent_encode(
        encode_utf8(redirect_uri),
    ) + "&scope="@ + percent_encode(encode_utf8(scope)) + "&state="@ + percent_encode(
        encode_utf8(state),
    ) + "&code_challenge="@ + percent_encode(encode_utf8(challenge))
        + "&code_challenge_method=S256"@
}

/// Build the provider authorization URL for one flow run.
pub fn authorization_url(
    client_id: &str,
    redirect_uri: &str,
    scope: &str,
    state: &str,
    challenge: &str,
) -> (r: String)
    ensures
        r@ == authorization_url_view(client_id@, redirect_uri@, scope@, state@, challenge@),
{
    let mut out = String::from_str(auth_endpoint());
    out.append("?response_type=code&client_id=");
    let e1 = encode_component(client_id);
    out.append(e1.as_str());
    out.append("&redirect_uri=");
    let e2 = encode_component(redirect_uri);
    out.append(e2.as_str());
    out.append("&scope=");
    let e3 = encode_component(scope);
    out.append(e3.as_str());
    out.append("&state=");
    let e4 = encode_component(state);
    out.append(e4.as_str());
    out.append("&code_challenge=");
    let e5 = encode_component(challenge);
    out.append(e5.as_str());
    out.append("&code_challenge_method=S256");
    out
}

/// The form body redeeming an authorization code, with the PKCE
/// verifier, at the token endpoint.
pub open spec fn code_exchange_body_view(
    client_id: Seq<char>,
    client_secret: Seq<char>,
    code: Seq<char>,
    verifier: Seq<char>,
    redirect_uri: Seq<char>,
) -> Seq<char> {
    "grant_type=authorization_code&code="@ + percent_encode(encode_utf8(code)) + "&client_id="@
        + percent_encode(encode_utf8(client_id)) + "&client_secret="@ + percent_encode(
        encode_utf8(client_secret),
    ) + "&redirect_uri="@ + percent_encode(encode_utf8(redirect_uri)) + "&code_verifier="@
        + percent_encode(encode_utf8(verifier))
}

/// Build the form body redeeming an authorization code.
pub fn code_exchange_body(
    client_id: &str,
    client_secret: &str,
    code: &str,
    verifier: &str,
    redirect_uri: &str,
) -> (r: String)
    ensures
        r@ == code_exchange_body_view(client_id@, client_secret@, code@, verifier@, redirect_uri@),
{
    let mut out = String::from_str("grant_type=authorization_code&code=");
    let e1 = encode_component(code);
    out.append(e1.as_str());
    out.append("&client_id=");
    let e2 = encode_component(client_id);
    out.append(e2.as_str());
    out.append("&client_secret=");
    let e3 = encode_component(client_secret);
    out.append(e3.as_str());
    out.append("&redirect_uri=");
    let e4 = encode_component(redirect_uri);
    out.append(e4.as_str());
    out.append("&code_verifier=");
    let e5 = encode_component(verifier);
    out.append(e5.as_str());
    out
}

/// The form body exchanging a refresh token for a new access token.
pub open spec fn refresh_exchange_body_view(
    client_id: Seq<char>,
    client_secret: Seq<char>,
    refresh_token: Seq<char>,
) -> Seq<char> {
    "grant_type=refresh_token&refresh_token="@ + percent_encode(encode_utf8(refresh_token))
        + "&client_id="@ + percent_encode(encode_utf8(client_id)) + "&client_secret="@
        + percent_encode(encode_utf8(client_secret))
}

/// Build the form body exchanging a refresh token.
pub fn refresh_exchange_body(client_id: &str, client_secret: &str, refresh_token: &str) -> (r:
    String)
    ensures
        r@ == refresh_exchange_body_view(client_id@, client_secret@, refresh_token@),
{
    let mut out = String::from_str("grant_type=refresh_token&refresh_token=");
    let e1 = encode_component(refresh_token);
    out.append(e1.as_str());
    out.append("&client_id=");
    let e2 = encode_component(client_id);
    out.append(e2.as_str());
    out.append("&client_secret=");
    let e3 = encode_component(client_secret);
    out.append(e3.as_str());
    out
}

/// The list-events URL for one sync request: the calendar id
/// percent-encoded into the path, the cap as a query parameter.
pub open spec fn events_list_url_view(calendar_id: Seq<char>, max_results: u32) -> Seq<char> {
    "https://www.googleapis.com/calendar/v3/calendars/"@ + percent_encode(
        encode_utf8(calendar_id),
    ) + "/events?maxResults="@ + dec_digits(max_results as nat)
}

/// Build the list-events URL for one sync request.
pub fn events_list_url(calendar_id: &str, max_results: u32) -> (r: String)
    ensures
        r@ == events_list_url_view(calendar_id@, max_results),
{
    let mut out = String::from_str("https://www.googleapis.com/calendar/v3/calendars/");
    let e = encode_component(calendar_id);
    out.append(e.as_str());
    out.append("/events?maxResults=");
    let digits = render_u64(max_results as u64);
    out.append(digits.as_str());
    out
}

/// The list-events URL for the API-key provider: the key, a lower time
/// bound, and the cap as query parameters, with single events in start
/// order.
pub open spec fn api_events_list_url_view(
    api_key: Seq<char>,
    calendar_id: Seq<char>,
    time_min: Seq<char>,
    max_results: u32,
) -> Seq<char> {
    "https://www.googleapis.com/calendar/v3/calendars/"@ + percent_encode(
        encode_utf8(calendar_id),
    ) + "/events?key="@ + percent_encode(encode_utf8(api_key)) + "&timeMin="@ + percent_encode(
        encode_utf8(time_min),
    ) + "&maxResults="@ + dec_digits(max_results as nat) + "&singleEvents=true&orderBy=startTime"@
}

/// Build the list-events URL for the API-key provider. The caller
/// supplies the lower time bound, since only it has a clock.
pub fn api_events_list_url(
    api_key: &str,
    calendar_id: &str,
    time_min: &str,
    max_results: u32,
) -> (r: String)
    ensures
        r@ == api_events_list_url_view(api_key@, calendar_id@, time_min@, max_results),
{
    let mut out = String::from_str("https://www.googleapis.com/calendar/v3/calendars/");
    let e1 = encode_component(calendar_id);
    out.append(e1.as_str());
    out.append("/events?key=");
    let e2 = encode_component(api_key);
    out.append(e2.as_str());
    out.append("&timeMin=");
    let e3 = encode_component(time_min);
    out.append(e3.as_str());
    out.append("&maxResults=");
    let digits = render_u64(max_results as u64);
    out.append(digits.as_str());
    out.append("&singleEvents=true&orderBy=startTime");
    out
}

/// The acknowledgement page the loopback listener answers the browser
/// with, so the tab can be closed.
pub fn ack_page_body() -> (r: &'static str)
    ensures
        r@ == "<html><body>OK. You can close this window.</body></html>"@,
{
    "<html><body>OK. You can close this window.</body></html>"
}

/// The whole HTTP response the loopback listener writes: a minimal OK
/// answer carrying [`ack_page_body`], with its exact length declared.
pub fn ack_http_response() -> (r: String)
    ensures
        r@ == "HTTP/1.1 200 OK\r\nContent-Type: text/html; charset=utf-8\r\nContent-Length: "@
            + dec_digits(56nat) + "\r\n\r\n"@
            + "<html><body>OK. You can close this window.</body></html>"@,
{
    let body = ack_page_body();
    let mut out = String::from_str(
        "HTTP/1.1 200 OK\r\nContent-Type: text/html; charset=utf-8\r\nContent-Length: ",
    );
    let n = ack_page_len();
    let digits = render_u64(n);
    out.append(digits.as_str());
    out.append("\r\n\r\n");
    out.append(body);
    out
}

/// The byte length of the acknowledgement page (it is plain ASCII, so
/// characters and bytes agree).
pub fn ack_page_len() -> (r: u64)
    ensures
        r == "<html><body>OK. You can close this window.</body></html>"@.len(),
        r == 56,
{
    proof {
        reveal_strlit("<html><body>OK. You can close this window.</body></html>");
    }
    56
}

/// Persist a finished authorization: the token from the provider's
/// response, and the client identity the refresh manager will need
/// later. A response without an access token is rejected; the store's
/// write failures surface.
pub fn persist_authorization(
    store: &CredentialStore,
    resp: TokenResponse,
    creds: &ClientCredentials,
) -> (r: Result<OAuthToken, AuthFlowError>)
    ensures
        match r {
            Ok(t) => {
                &&& resp.access_token matches Some(a) && t@.access_token == a@
                &&& t@.refresh_token == match resp.refresh_token {
                    Some(s) => Some(s@),
                    None => None::<Seq<char>>,
                }
                &&& t@.token_type == match resp.token_type {
                    Some(s) => s@,
                    None => "Bearer"@,
                }
                &&& t@.expires_in == match resp.expires_in {
                    Some(n) => n,
                    None => 0u64,
                }
                &&& t@.scope == match resp.scope {
                    Some(s) => s@,
                    None => ""@,
                }
            },
            Err(e) => {
                &&& !(e is AuthorizationTimeout)
                &&& e is ExchangeFailed <==> resp.access_token is None
            },
        },
{
    let token = match token_from_response(resp) {
        Ok(t) => t,
        Err(m) => {
            return Err(AuthFlowError::ExchangeFailed(m));
        },
    };
    match store.store_token(&token) {
        Ok(()) => {},
        Err(e) => {
            return Err(AuthFlowError::Store(store_error_message(e)));
        },
    }
    match store.store_client_credentials(creds) {
        Ok(()) => Ok(token),
        Err(e) => Err(AuthFlowError::Store(store_error_message(e))),
    }
}

/// Render a store error for the flow's error reporting.
fn store_error_message(e: StoreError) -> (r: String) {
    match e {
        StoreError::NotFound => String::from_str("credential store entry not found"),
        StoreError::Backend(m) => m,
    }
}

/// Why an authorization flow run failed.
#[derive(Debug)]
pub enum AuthFlowError {
    /// No callback arrived on the loopback listener within
    /// [`CALLBACK_TIMEOUT_SECONDS`].
    AuthorizationTimeout,
    /// The code exchange was rejected or answered unusably; terminal
    /// for this run, since an authorization code is single-use.
    ExchangeFailed(String),
    /// The flow finished but the credential store refused the write.
    Store(String),
}

/// Index of the first occurrence of `c` in `s`, or `s.len()` if there
/// is none.
pub open spec fn first_idx(s: Seq<char>, c: char) -> int
    decreases s.len(),
{
    if s.len() == 0 {
        0
    } else if s[0] == c {
        0
    } else {
        1 + first_idx(s.drop_first(), c)
    }
}

/// Basic facts about [`first_idx`].
pub proof fn lemma_first_idx(s: Seq<char>, c: char)
    ensures
        0 <= first_idx(s, c) <= s.len(),
        first_idx(s, c) < s.len() ==> s[first_idx(s, c)] == c,
        forall|j: int| 0 <= j < first_idx(s, c) ==> s[j] != c,
    decreases s.len(),
{
    if s.len() > 0 && s[0] != c {
        lemma_first_idx(s.drop_first(), c);
        assert forall|j: int| 0 <= j < first_idx(s, c) implies s[j] != c by {
            if j > 0 {
                assert(s[j] == s.drop_first()[j - 1]);
            }
        }
    }
}

/// [`first_idx`] is determined by the facts it guarantees.
pub proof fn lemma_first_idx_is(s: Seq<char>, c: char, i: int)
    requires
        0 <= i <= s.len(),
        i < s.len() ==> s[i] == c,
        forall|j: int| 0 <= j < i ==> s[j] != c,
    ensures
        first_idx(s, c) == i,
    decreases s.len(),
{
    if s.len() == 0 {
    } else if i == 0 {
    } else {
        lemma_first_idx_is(s.drop_first(), c, i - 1);
    }
}

/// Scan `s` for the first occurrence of `c`.
pub fn find_char(s: &str, c: char) -> (r: usize)
    ensures
        r == first_idx(s@, c),
        r <= s@.len(),
{
    let n: usize = s.unicode_len();
    let mut i: usize = 0;
    while i < n
        invariant_except_break
            n == s@.len(),
            i <= n,
            forall|j: int| 0 <= j < i ==> s@[j] != c,
        ensures
            n == s@.len(),
            i <= n,
            forall|j: int| 0 <= j < i ==> s@[j] != c,
            i < n ==> s@[i as int] == c,
        decreases n - i,
    {
        if s.get_char(i) == c {
            break;
        }
        i = i + 1;
    }
    proof {
        lemma_first_idx_is(s@, c, i as int);
    }
    i
}

/// The value of one `key=value` query parameter when its key is `code`,
/// percent-decoded; `None` for any other parameter or an undecodable
/// value.
pub open spec fn code_param_value(p: Seq<char>) -> Option<Seq<char>> {
    let eq = first_idx(p, '=');
    if 0 <= eq < p.len() && p.subrange(0, eq) == "code"@ {
        percent_decode(p.skip(eq + 1))
    } else {
        None
    }
}

/// The decoded `code` value of the first query parameter that carries
/// one.
pub open spec fn find_code_param(params: Seq<char>) -> Option<Seq<char>>
    decreases params.len(),
{
    let amp = first_idx(params, '&');
    if 0 <= amp < params.len() {
        match code_param_value(params.subrange(0, amp)) {
            Some(v) => Some(v),
            None => find_code_param(params.skip(amp + 1)),
        }
    } else {
        code_param_value(params)
    }
}

/// The authorization code carried by a loopback callback request: the
/// decoded `code` query parameter of the request line's target.
///
/// The request's first line is `method SP target SP version`; the
/// target's query string follows its first `?`.
pub open spec fn callback_code(req: Seq<char>) -> Option<Seq<char>> {
    let sp1 = first_idx(req, ' ');
    if sp1 == req.len() {
        None
    } else {
        let rest = req.skip(sp1 + 1);
        let target = rest.subrange(0, first_idx(rest, ' '));
        let q = first_idx(target, '?');
        if q == target.len() {
            None
        } else {
            find_code_param(target.skip(q + 1))
        }
    }
}

/// Extract the authorization code from the callback request the
/// loopback listener read.
pub fn parse_callback_code(req: &str) -> (r: Option<String>)
    ensures
        match r {
            Some(code) => callback_code(req@) == Some(code@),
            None => callback_code(req@) is None,
        },
{
    let n: usize = req.unicode_len();
    let sp1 = find_char(req, ' ');
    if sp1 == n {
        return None;
    }
    let rest: &str = req.substring_char(sp1 + 1, n);
    proof {
        assert(rest@ =~= req@.skip(sp1 + 1));
    }
    let sp2 = find_char(rest, ' ');
    let target: &str = rest.substring_char(0, sp2);
    proof {
        assert(target@ =~= rest@.subrange(0, sp2 as int));
    }
    let tn: usize = target.unicode_len();
    let q = find_char(target, '?');
    if q == tn {
        return None;
    }
    let mut params: String = target.substring_char(q + 1, tn).to_owned();
    proof {
        assert(params@ =~= target@.skip(q + 1));
    }
    loop
        invariant
            callback_code(req@) == find_code_param(params@),
        decreases params@.len(),
    {
        let pn: usize = params.as_str().unicode_len();
        let amp = find_char(params.as_str(), '&');
        let head: &str = params.as_str().substring_char(0, amp);
        proof {
            if amp < pn {
                assert(head@ =~= params@.subrange(0, amp as int));
            } else {
                assert(head@ =~= params@);
            }
        }
        // does this parameter carry the code?
        let hn: usize = head.unicode_len();
        let eq = find_char(head, '=');
        let mut found: Option<String> = None;
        if eq < hn {
            let key: &str = head.substring_char(0, eq);
            proof {
                assert(key@ =~= head@.subrange(0, eq as int));
            }
            if str_eq(key, "code") {
                let raw: &str = head.substring_char(eq + 1, hn);
                proof {
                    assert(raw@ =~= head@.skip(eq + 1));
                }
                found = decode_component(raw);
            }
        }
        proof {
            match &found {
                Some(v) => {
                    assert(code_param_value(head@) == Some(v@));
                },
                None => {
                    assert(code_param_value(head@) is None);
                },
            }
        }
        match found {
            Some(v) => {
                return Some(v);
            },
            None => {},
        }
        if amp == pn {
            proof {
                assert(find_code_param(params@) is None);
            }
            return None;
        }
        let next: String = params.as_str().substring_char(amp + 1, pn).to_owned();
        proof {
            assert(next@ =~= params@.skip(amp + 1));
            assert(find_code_param(params@) == find_code_param(next@));
        }
        params = next;
    }
}

} // verus!
