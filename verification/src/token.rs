//! Data model of the OAuth calendar subsystem: client identity, token
//! material, sync requests, and the opaque calendar events a sync
//! returns.

use vstd::prelude::*;

verus! {

/// OAuth client identity, written once during authorization and read by
/// the token refresh manager.
#[derive(Debug)]
pub struct ClientCredentials {
    pub client_id: String,
    pub client_secret: String,
}

/// Mathematical image of a [`ClientCredentials`].
pub struct CredentialsView {
    pub client_id: Seq<char>,
    pub client_secret: Seq<char>,
}

impl View for ClientCredentials {
    type V = CredentialsView;

    open spec fn view(&self) -> CredentialsView {
        CredentialsView { client_id: self.client_id@, client_secret: self.client_secret@ }
    }
}

/// A stored OAuth token record. A record without a `refresh_token` can
/// be replaced but never refreshed: that absence surfaces as a terminal
/// reauthorization-required condition.
#[derive(Debug)]
pub struct OAuthToken {
    pub access_token: String,
    pub refresh_token: Option<String>,
    pub token_type: String,
    pub expires_in: u64,
    pub scope: String,
}

/// Mathematical image of an [`OAuthToken`].
pub struct TokenView {
    pub access_token: Seq<char>,
    pub refresh_token: Option<Seq<char>>,
    pub token_type: Seq<char>,
    pub expires_in: u64,
    pub scope: Seq<char>,
}

impl View for OAuthToken {
    type V = TokenView;

    open spec fn view(&self) -> TokenView {
        TokenView {
            access_token: self.access_token@,
            refresh_token: match self.refresh_token {
                Some(r) => Some(r@),
                None => None,
            },
            token_type: self.token_type@,
            expires_in: self.expires_in,
            scope: self.scope@,
        }
    }
}

impl Clone for OAuthToken {
    fn clone(&self) -> (res: Self)
        ensures
            res@ == self@,
    {
        OAuthToken {
            access_token: self.access_token.clone(),
            refresh_token: clone_opt_string(&self.refresh_token),
            token_type: self.token_type.clone(),
            expires_in: self.expires_in,
            scope: self.scope.clone(),
        }
    }
}

/// Clone an optional string, keeping its value.
pub fn clone_opt_string(s: &Option<String>) -> (res: Option<String>)
    ensures
        res == s,
{
    match s {
        Some(v) => Some(v.clone()),
        None => None,
    }
}

/// Clone a list of key-value pairs, keeping values and order.
pub fn clone_pairs(pairs: &Vec<(String, String)>) -> (r: Vec<(String, String)>)
    ensures
        r@ == pairs@,
{
    let mut out: Vec<(String, String)> = Vec::new();
    let mut i: usize = 0;
    while i < pairs.len()
        invariant
            i <= pairs@.len(),
            out@.len() == i,
            forall|j: int| 0 <= j < i ==> out@[j] == pairs@[j],
        decreases pairs@.len() - i,
    {
        let k = pairs[i].0.clone();
        let v = pairs[i].1.clone();
        out.push((k, v));
        i = i + 1;
    }
    proof {
        assert(out@ =~= pairs@);
    }
    out
}

/// One sync invocation's parameters.
#[derive(Debug)]
pub struct SyncRequest {
    pub calendar_id: String,
    pub max_results: u32,
}

/// Mathematical image of a [`SyncRequest`].
pub struct RequestView {
    pub calendar_id: Seq<char>,
    pub max_results: u32,
}

impl View for SyncRequest {
    type V = RequestView;

    open spec fn view(&self) -> RequestView {
        RequestView { calendar_id: self.calendar_id@, max_results: self.max_results }
    }
}

impl RequestView {
    /// A sync request must ask for at least one event.
    pub open spec fn wf(self) -> bool {
        self.max_results >= 1
    }
}

/// One calendar event, carried as the raw text the provider returned.
/// The subsystem treats an event as an atomic unit and never interprets
/// its fields.
#[derive(Debug)]
pub struct CalendarEvent {
    pub raw: String,
}

impl View for CalendarEvent {
    type V = Seq<char>;

    open spec fn view(&self) -> Seq<char> {
        self.raw@
    }
}

impl Clone for CalendarEvent {
    fn clone(&self) -> (res: Self)
        ensures
            res@ == self@,
    {
        CalendarEvent { raw: self.raw.clone() }
    }
}

/// The images of a sequence of events.
pub open spec fn events_view(events: Seq<CalendarEvent>) -> Seq<Seq<char>> {
    events.map(|i: int, e: CalendarEvent| e@)
}

/// What the provider's token endpoint answered, reduced to plain
/// values. Absent fields are `None`.
#[derive(Debug)]
pub struct TokenResponse {
    pub access_token: Option<String>,
    pub refresh_token: Option<String>,
    pub token_type: Option<String>,
    pub expires_in: Option<u64>,
    pub scope: Option<String>,
}

/// Build the token record from a provider token response.
///
/// A response without an `access_token` is malformed and rejected; the
/// other fields default (`Bearer`, zero lifetime, empty scope). The
/// refresh token is exactly what the provider sent: providers may
/// rotate refresh tokens, so a previous one is never carried over.
pub fn token_from_response(resp: TokenResponse) -> (r: Result<OAuthToken, String>)
    ensures
        match r {
            Ok(t) => {
                &&& resp.access_token matches Some(a) && t@.access_token == a@
                &&& t@.refresh_token == match resp.refresh_token {
                    Some(s) => Some(s@),
                    None => None::<Seq<char>>,
                }
                &&& t@.token_type == match resp.token_type {
                    Some(s) => s@,
                    None => "Bearer"@,
                }
                &&& t@.expires_in == match resp.expires_in {
                    Some(n) => n,
                    None => 0u64,
                }
                &&& t@.scope == match resp.scope {
                    Some(s) => s@,
                    None => ""@,
                }
            },
            Err(_) => resp.access_token is None,
        },
{
    let access = match resp.access_token {
        Some(a) => a,
        None => {
            return Err(String::from_str("token response has no access_token"));
        },
    };
    proof {
        reveal_strlit("");
        assert(""@ =~= Seq::<char>::empty());
    }
    Ok(
        OAuthToken {
            access_token: access,
            refresh_token: resp.refresh_token,
            token_type: match resp.token_type {
                Some(t) => t,
                None => String::from_str("Bearer"),
            },
            expires_in: match resp.expires_in {
                Some(n) => n,
                None => 0,
            },
            scope: match resp.scope {
                Some(s) => s,
                None => String::new(),
            },
        },
    )
}

} // verus!
