//! The calendar sync engine.
//!
//! One sync call is a short protocol against the calendar provider:
//! list events with the stored access token; on an authorization
//! failure, refresh the token exactly once and retry; a second
//! authorization failure is terminal. The engine holds that protocol's
//! state and decides, after each outside response, what happens next.
//! The network itself is driven outside: the caller performs each
//! [`SyncStep`] the engine hands out and feeds the outcome back in.
//!
//! The single-retry policy is the subsystem's core failure-recovery
//! contract: the trace lemmas at the bottom prove that every sync
//! attempt issues exactly one list request when the stored token is
//! accepted, at most one refresh, at most two list requests, and
//! terminates.

use vstd::prelude::*;

use crate::token::{CalendarEvent, OAuthToken, SyncRequest, TokenView, events_view};

verus! {

/// Why a sync call failed.
#[derive(Debug)]
pub enum SyncError {
    /// No token is stored; the user must run the authorization flow.
    NotAuthorized,
    /// The refresh token is missing or was rejected; terminal and
    /// user-actionable, never retried inside a sync call.
    ReauthorizationRequired,
    /// Network-level failure, possibly transient.
    Transport(String),
    /// The provider answered with a malformed or unexpected payload.
    InvalidResponse(String),
}

/// Mathematical image of a [`SyncError`].
pub enum SyncErrorView {
    NotAuthorized,
    ReauthorizationRequired,
    Transport(Seq<char>),
    InvalidResponse(Seq<char>),
}

impl View for SyncError {
    type V = SyncErrorView;

    open spec fn view(&self) -> SyncErrorView {
        match self {
            SyncError::NotAuthorized => SyncErrorView::NotAuthorized,
            SyncError::ReauthorizationRequired => SyncErrorView::ReauthorizationRequired,
            SyncError::Transport(m) => SyncErrorView::Transport(m@),
            SyncError::InvalidResponse(m) => SyncErrorView::InvalidResponse(m@),
        }
    }
}

/// What one list-events request came back as, reduced to plain values.
#[derive(Debug)]
pub enum ListOutcome {
    /// A well-formed response; a missing event list reads as no events.
    Listed(Vec<CalendarEvent>),
    /// The provider rejected the access token (HTTP 401 equivalent).
    Unauthorized,
    /// The request never produced a usable response.
    TransportError(String),
    /// The response body could not be read as an event list.
    MalformedBody(String),
}

/// Mathematical image of a [`ListOutcome`].
pub enum ListOutcomeView {
    Listed(Seq<Seq<char>>),
    Unauthorized,
    TransportError(Seq<char>),
    MalformedBody(Seq<char>),
}

impl View for ListOutcome {
    type V = ListOutcomeView;

    open spec fn view(&self) -> ListOutcomeView {
        match self {
            ListOutcome::Listed(evs) => ListOutcomeView::Listed(events_view(evs@)),
            ListOutcome::Unauthorized => ListOutcomeView::Unauthorized,
            ListOutcome::TransportError(m) => ListOutcomeView::TransportError(m@),
            ListOutcome::MalformedBody(m) => ListOutcomeView::MalformedBody(m@),
        }
    }
}

/// What one refresh exchange came back as. Any failure of a refresh is
/// terminal for the sync call that asked for it.
#[derive(Debug)]
pub enum RefreshOutcome {
    /// The provider issued a new token (already persisted by the
    /// refresh manager).
    Refreshed(OAuthToken),
    /// The exchange failed: revoked grant, rejected token, or no
    /// usable response.
    Failed,
}

/// Mathematical image of a [`RefreshOutcome`].
pub enum RefreshOutcomeView {
    Refreshed(TokenView),
    Failed,
}

impl View for RefreshOutcome {
    type V = RefreshOutcomeView;

    open spec fn view(&self) -> RefreshOutcomeView {
        match self {
            RefreshOutcome::Refreshed(t) => RefreshOutcomeView::Refreshed(t@),
            RefreshOutcome::Failed => RefreshOutcomeView::Failed,
        }
    }
}

/// What the engine asks its driver to do next.
#[derive(Debug)]
pub enum SyncStep {
    /// Issue one list-events request with this access token.
    FetchEvents { access_token: String },
    /// Exchange this refresh token for a new token.
    RefreshToken { refresh_token: String },
    /// The sync call is over with this result.
    Done(Result<Vec<CalendarEvent>, SyncError>),
}

/// Mathematical image of a [`SyncStep`].
pub enum StepView {
    FetchEvents { access_token: Seq<char> },
    RefreshToken { refresh_token: Seq<char> },
    Done(Result<Seq<Seq<char>>, SyncErrorView>),
}

impl View for SyncStep {
    type V = StepView;

    open spec fn view(&self) -> StepView {
        match self {
            SyncStep::FetchEvents { access_token } => StepView::FetchEvents {
                access_token: access_token@,
            },
            SyncStep::RefreshToken { refresh_token } => StepView::RefreshToken {
                refresh_token: refresh_token@,
            },
            SyncStep::Done(r) => StepView::Done(
                match r {
                    Ok(evs) => Ok(events_view(evs@)),
                    Err(e) => Err(e@),
                },
            ),
        }
    }
}

/// Where a sync call stands.
#[derive(Debug)]
pub enum Phase {
    /// The first list request is out, issued with this stored token.
    FirstFetch { token: OAuthToken },
    /// The one permitted refresh is out.
    AwaitRefresh,
    /// The retried list request is out, issued with the fresh token.
    RetryFetch,
    /// The call is over.
    Finished,
}

/// Mathematical image of a [`Phase`].
pub enum PhaseView {
    FirstFetch { token: TokenView },
    AwaitRefresh,
    RetryFetch,
    Finished,
}

impl View for Phase {
    type V = PhaseView;

    open spec fn view(&self) -> PhaseView {
        match self {
            Phase::FirstFetch { token } => PhaseView::FirstFetch { token: token@ },
            Phase::AwaitRefresh => PhaseView::AwaitRefresh,
            Phase::RetryFetch => PhaseView::RetryFetch,
            Phase::Finished => PhaseView::Finished,
        }
    }
}

/// The state of one sync call.
#[derive(Debug)]
pub struct SyncEngine {
    pub max_results: u32,
    pub phase: Phase,
}

/// Mathematical image of a [`SyncEngine`].
pub struct EngineView {
    pub max_results: u32,
    pub phase: PhaseView,
}

impl View for SyncEngine {
    type V = EngineView;

    open spec fn view(&self) -> EngineView {
        EngineView { max_results: self.max_results, phase: self.phase@ }
    }
}

/// At most `max` leading events of a response: a sync result never
/// exceeds the requested size.
pub open spec fn take_view(evs: Seq<Seq<char>>, max: u32) -> Seq<Seq<char>> {
    if evs.len() <= max {
        evs
    } else {
        evs.subrange(0, max as int)
    }
}

/// What starting a sync call does: without a stored token the call is
/// over at once with `NotAuthorized`; otherwise the first list request
/// goes out with the stored access token.
pub open spec fn begin_spec(max_results: u32, stored: Option<TokenView>) -> (PhaseView, StepView) {
    match stored {
        None => (PhaseView::Finished, StepView::Done(Err(SyncErrorView::NotAuthorized))),
        Some(t) => (
            PhaseView::FirstFetch { token: t },
            StepView::FetchEvents { access_token: t.access_token },
        ),
    }
}

/// What a list-events outcome does to the call.
pub open spec fn on_fetch_spec(phase: PhaseView, outcome: ListOutcomeView, max_results: u32) -> (
    PhaseView,
    StepView,
) {
    match phase {
        PhaseView::FirstFetch { token } => match outcome {
            ListOutcomeView::Listed(evs) => (
                PhaseView::Finished,
                StepView::Done(Ok(take_view(evs, max_results))),
            ),
            ListOutcomeView::Unauthorized => match token.refresh_token {
                Some(r) => (PhaseView::AwaitRefresh, StepView::RefreshToken { refresh_token: r }),
                None => (
                    PhaseView::Finished,
                    StepView::Done(Err(SyncErrorView::ReauthorizationRequired)),
                ),
            },
            ListOutcomeView::TransportError(m) => (
                PhaseView::Finished,
                StepView::Done(Err(SyncErrorView::Transport(m))),
            ),
            ListOutcomeView::MalformedBody(m) => (
                PhaseView::Finished,
                StepView::Done(Err(SyncErrorView::InvalidResponse(m))),
            ),
        },
        _ => match outcome {
            ListOutcomeView::Listed(evs) => (
                PhaseView::Finished,
                StepView::Done(Ok(take_view(evs, max_results))),
            ),
            ListOutcomeView::Unauthorized => (
                PhaseView::Finished,
                StepView::Done(Err(SyncErrorView::ReauthorizationRequired)),
            ),
            ListOutcomeView::TransportError(m) => (
                PhaseView::Finished,
                StepView::Done(Err(SyncErrorView::Transport(m))),
            ),
            ListOutcomeView::MalformedBody(m) => (
                PhaseView::Finished,
                StepView::Done(Err(SyncErrorView::InvalidResponse(m))),
            ),
        },
    }
}

/// What a refresh outcome does to the call: a fresh token sends the
/// retried list request out; any refresh failure ends the call with
/// `ReauthorizationRequired`, never another attempt.
pub open spec fn on_refresh_spec(outcome: RefreshOutcomeView) -> (PhaseView, StepView) {
    match outcome {
        RefreshOutcomeView::Refreshed(t) => (
            PhaseView::RetryFetch,
            StepView::FetchEvents { access_token: t.access_token },
        ),
        RefreshOutcomeView::Failed => (
            PhaseView::Finished,
            StepView::Done(Err(SyncErrorView::ReauthorizationRequired)),
        ),
    }
}

impl SyncEngine {
    /// Start one sync call for the given request.
    pub fn begin(request: &SyncRequest, stored: Option<OAuthToken>) -> (r: (SyncEngine, SyncStep))
        requires
            request@.wf(),
        ensures
            (r.0@.phase, r.1@) == begin_spec(
                request@.max_results,
                match stored {
                    Some(t) => Some(t@),
                    None => None::<TokenView>,
                },
            ),
            r.0@.max_results == request@.max_results,
    {
        let max_results = request.max_results;
        match stored {
            None => (
                SyncEngine { max_results, phase: Phase::Finished },
                SyncStep::Done(Err(SyncError::NotAuthorized)),
            ),
            Some(t) => {
                let access = t.access_token.clone();
                (
                    SyncEngine { max_results, phase: Phase::FirstFetch { token: t } },
                    SyncStep::FetchEvents { access_token: access },
                )
            },
        }
    }

    /// Feed the outcome of the list-events request the engine asked for.
    pub fn on_fetch(&mut self, outcome: ListOutcome) -> (step: SyncStep)
        requires
            old(self)@.phase matches PhaseView::FirstFetch { .. } || old(self)@.phase
                is RetryFetch,
        ensures
            (final(self)@.phase, step@) == on_fetch_spec(
                old(self)@.phase,
                outcome@,
                old(self)@.max_results,
            ),
            final(self)@.max_results == old(self)@.max_results,
    {
        match outcome {
            ListOutcome::Listed(evs) => {
                let taken = take_events(evs, self.max_results);
                self.phase = Phase::Finished;
                SyncStep::Done(Ok(taken))
            },
            ListOutcome::Unauthorized => {
                let refresh: Option<String> = match &self.phase {
                    Phase::FirstFetch { token } => match &token.refresh_token {
                        Some(r) => Some(r.clone()),
                        None => None,
                    },
                    _ => None,
                };
                match refresh {
                    Some(r) => {
                        self.phase = Phase::AwaitRefresh;
                        SyncStep::RefreshToken { refresh_token: r }
                    },
                    None => {
                        self.phase = Phase::Finished;
                        SyncStep::Done(Err(SyncError::ReauthorizationRequired))
                    },
                }
            },
            ListOutcome::TransportError(m) => {
                self.phase = Phase::Finished;
                SyncStep::Done(Err(SyncError::Transport(m)))
            },
            ListOutcome::MalformedBody(m) => {
                self.phase = Phase::Finished;
                SyncStep::Done(Err(SyncError::InvalidResponse(m)))
            },
        }
    }

    /// Feed the outcome of the refresh exchange the engine asked for.
    pub fn on_refresh(&mut self, outcome: RefreshOutcome) -> (step: SyncStep)
        requires
            old(self)@.phase is AwaitRefresh,
        ensures
            (final(self)@.phase, step@) == on_refresh_spec(outcome@),
            final(self)@.max_results == old(self)@.max_results,
    {
        match outcome {
            RefreshOutcome::Refreshed(t) => {
                self.phase = Phase::RetryFetch;
                SyncStep::FetchEvents { access_token: t.access_token }
            },
            RefreshOutcome::Failed => {
                self.phase = Phase::Finished;
                SyncStep::Done(Err(SyncError::ReauthorizationRequired))
            },
        }
    }
}

/// At most `max` leading events of a response.
pub fn take_events(evs: Vec<CalendarEvent>, max: u32) -> (r: Vec<CalendarEvent>)
    ensures
        events_view(r@) == take_view(events_view(evs@), max),
{
    let mut evs = evs;
    if evs.len() > max as usize {
        evs.truncate(max as usize);
        proof {
            assert(events_view(evs@) =~= take_view(events_view(evs@), max));
        }
    }
    proof {
        assert(events_view(evs@) =~= take_view(events_view(evs@), max));
    }
    evs
}

/// The steps a driver observes over one whole sync call, given the
/// stored token and what the provider would answer: `first` to the
/// first list request, `refresh` to a refresh, `second` to a retried
/// list request. Outcomes the call never asks for are ignored.
pub open spec fn sync_trace(
    max_results: u32,
    stored: Option<TokenView>,
    first: ListOutcomeView,
    refresh: RefreshOutcomeView,
    second: ListOutcomeView,
) -> Seq<StepView> {
    let (p1, s1) = begin_spec(max_results, stored);
    if !(s1 is FetchEvents) {
        seq![s1]
    } else {
        let (p2, s2) = on_fetch_spec(p1, first, max_results);
        if !(s2 is RefreshToken) {
            seq![s1, s2]
        } else {
            let (p3, s3) = on_refresh_spec(refresh);
            if !(s3 is FetchEvents) {
                seq![s1, s2, s3]
            } else {
                let (p4, s4) = on_fetch_spec(p3, second, max_results);
                seq![s1, s2, s3, s4]
            }
        }
    }
}

/// How many list-events requests a trace issues.
pub open spec fn count_fetches(tr: Seq<StepView>) -> nat
    decreases tr.len(),
{
    if tr.len() == 0 {
        0
    } else {
        (if tr[0] is FetchEvents {
            1nat
        } else {
            0nat
        }) + count_fetches(tr.drop_first())
    }
}

/// How many refresh exchanges a trace issues.
pub open spec fn count_refreshes(tr: Seq<StepView>) -> nat
    decreases tr.len(),
{
    if tr.len() == 0 {
        0
    } else {
        (if tr[0] is RefreshToken {
            1nat
        } else {
            0nat
        }) + count_refreshes(tr.drop_first())
    }
}

/// Does this step issue a list-events request?
pub open spec fn fetch_ind(s: StepView) -> nat {
    if s is FetchEvents {
        1
    } else {
        0
    }
}

/// Does this step issue a refresh exchange?
pub open spec fn refresh_ind(s: StepView) -> nat {
    if s is RefreshToken {
        1
    } else {
        0
    }
}

/// Closed form of the step counts for the short traces a sync call can
/// produce.
proof fn lemma_counts_small(tr: Seq<StepView>)
    requires
        1 <= tr.len() <= 4,
    ensures
        count_fetches(tr) == fetch_ind(tr[0]) + (if tr.len() >= 2 {
            fetch_ind(tr[1])
        } else {
            0nat
        }) + (if tr.len() >= 3 {
            fetch_ind(tr[2])
        } else {
            0nat
        }) + (if tr.len() >= 4 {
            fetch_ind(tr[3])
        } else {
            0nat
        }),
        count_refreshes(tr) == refresh_ind(tr[0]) + (if tr.len() >= 2 {
            refresh_ind(tr[1])
        } else {
            0nat
        }) + (if tr.len() >= 3 {
            refresh_ind(tr[2])
        } else {
            0nat
        }) + (if tr.len() >= 4 {
            refresh_ind(tr[3])
        } else {
            0nat
        }),
{
    let e = Seq::<StepView>::empty();
    assert(count_fetches(e) == 0);
    assert(count_refreshes(e) == 0);
    let s1 = tr.drop_first();
    if tr.len() == 1 {
        assert(s1 =~= e);
    } else {
        assert(s1[0] == tr[1]);
        let s2 = s1.drop_first();
        if tr.len() == 2 {
            assert(s2 =~= e);
        } else {
            assert(s2[0] == tr[2]);
            let s3 = s2.drop_first();
            if tr.len() == 3 {
                assert(s3 =~= e);
            } else {
                assert(s3[0] == tr[3]);
                let s4 = s3.drop_first();
                assert(s4 =~= e);
                assert(count_fetches(s3) == fetch_ind(tr[3]) + count_fetches(s4));
                assert(count_refreshes(s3) == refresh_ind(tr[3]) + count_refreshes(s4));
            }
            assert(count_fetches(s2) == fetch_ind(tr[2]) + count_fetches(s3));
            assert(count_refreshes(s2) == refresh_ind(tr[2]) + count_refreshes(s3));
        }
        assert(count_fetches(s1) == fetch_ind(tr[1]) + count_fetches(s2));
        assert(count_refreshes(s1) == refresh_ind(tr[1]) + count_refreshes(s2));
    }
    assert(count_fetches(tr) == fetch_ind(tr[0]) + count_fetches(s1));
    assert(count_refreshes(tr) == refresh_ind(tr[0]) + count_refreshes(s1));
}

/// A sync attempt with no stored token makes no network call at all and
/// reports `NotAuthorized`.
pub proof fn lemma_sync_not_authorized(
    max_results: u32,
    first: ListOutcomeView,
    refresh: RefreshOutcomeView,
    second: ListOutcomeView,
)
    ensures
        ({
            let tr = sync_trace(max_results, None, first, refresh, second);
            &&& tr =~= seq![StepView::Done(Err(SyncErrorView::NotAuthorized))]
            &&& count_fetches(tr) == 0
            &&& count_refreshes(tr) == 0
        }),
{
    let tr = sync_trace(max_results, None, first, refresh, second);
    assert(tr =~= seq![StepView::Done(Err(SyncErrorView::NotAuthorized))]);
    lemma_counts_small(tr);
}

/// With a stored token the provider accepts, a sync call issues exactly
/// one list-events request, no refresh, and returns the listed events
/// (capped at the requested size).
pub proof fn lemma_sync_valid_token_single_fetch(
    max_results: u32,
    t: TokenView,
    events: Seq<Seq<char>>,
    refresh: RefreshOutcomeView,
    second: ListOutcomeView,
)
    ensures
        ({
            let tr = sync_trace(
                max_results,
                Some(t),
                ListOutcomeView::Listed(events),
                refresh,
                second,
            );
            &&& tr =~= seq![
                StepView::FetchEvents { access_token: t.access_token },
                StepView::Done(Ok(take_view(events, max_results))),
            ]
            &&& count_fetches(tr) == 1
            &&& count_refreshes(tr) == 0
        }),
{
    let tr = sync_trace(max_results, Some(t), ListOutcomeView::Listed(events), refresh, second);
    assert(tr =~= seq![
        StepView::FetchEvents { access_token: t.access_token },
        StepView::Done(Ok(take_view(events, max_results))),
    ]);
    lemma_counts_small(tr);
}

/// When the first list request is rejected and a refresh token is
/// present and accepted, exactly one refresh happens, followed by
/// exactly one retried list request with the fresh access token.
pub proof fn lemma_sync_single_refresh_then_retry(
    max_results: u32,
    t: TokenView,
    r: Seq<char>,
    t2: TokenView,
    events2: Seq<Seq<char>>,
)
    requires
        t.refresh_token == Some(r),
    ensures
        ({
            let tr = sync_trace(
                max_results,
                Some(t),
                ListOutcomeView::Unauthorized,
                RefreshOutcomeView::Refreshed(t2),
                ListOutcomeView::Listed(events2),
            );
            &&& tr =~= seq![
                StepView::FetchEvents { access_token: t.access_token },
                StepView::RefreshToken { refresh_token: r },
                StepView::FetchEvents { access_token: t2.access_token },
                StepView::Done(Ok(take_view(events2, max_results))),
            ]
            &&& count_fetches(tr) == 2
            &&& count_refreshes(tr) == 1
        }),
{
    let tr = sync_trace(
        max_results,
        Some(t),
        ListOutcomeView::Unauthorized,
        RefreshOutcomeView::Refreshed(t2),
        ListOutcomeView::Listed(events2),
    );
    assert(tr =~= seq![
        StepView::FetchEvents { access_token: t.access_token },
        StepView::RefreshToken { refresh_token: r },
        StepView::FetchEvents { access_token: t2.access_token },
        StepView::Done(Ok(take_view(events2, max_results))),
    ]);
    lemma_counts_small(tr);
}

/// Without a refresh token, a rejected list request ends the call at
/// once: `ReauthorizationRequired`, no refresh, no further network
/// call.
pub proof fn lemma_sync_no_refresh_token(
    max_results: u32,
    t: TokenView,
    refresh: RefreshOutcomeView,
    second: ListOutcomeView,
)
    requires
        t.refresh_token is None,
    ensures
        ({
            let tr = sync_trace(max_results, Some(t), ListOutcomeView::Unauthorized, refresh, second);
            &&& tr =~= seq![
                StepView::FetchEvents { access_token: t.access_token },
                StepView::Done(Err(SyncErrorView::ReauthorizationRequired)),
            ]
            &&& count_fetches(tr) == 1
            &&& count_refreshes(tr) == 0
        }),
{
    let tr = sync_trace(max_results, Some(t), ListOutcomeView::Unauthorized, refresh, second);
    assert(tr =~= seq![
        StepView::FetchEvents { access_token: t.access_token },
        StepView::Done(Err(SyncErrorView::ReauthorizationRequired)),
    ]);
    lemma_counts_small(tr);
}

/// When the refresh itself fails, the call ends with
/// `ReauthorizationRequired` after one list request and one refresh:
/// there is never a third network call.
pub proof fn lemma_sync_refresh_failed(
    max_results: u32,
    t: TokenView,
    r: Seq<char>,
    second: ListOutcomeView,
)
    requires
        t.refresh_token == Some(r),
    ensures
        ({
            let tr = sync_trace(
                max_results,
                Some(t),
                ListOutcomeView::Unauthorized,
                RefreshOutcomeView::Failed,
                second,
            );
            &&& tr =~= seq![
                StepView::FetchEvents { access_token: t.access_token },
                StepView::RefreshToken { refresh_token: r },
                StepView::Done(Err(SyncErrorView::ReauthorizationRequired)),
            ]
            &&& count_fetches(tr) == 1
            &&& count_refreshes(tr) == 1
        }),
{
    let tr = sync_trace(
        max_results,
        Some(t),
        ListOutcomeView::Unauthorized,
        RefreshOutcomeView::Failed,
        second,
    );
    assert(tr =~= seq![
        StepView::FetchEvents { access_token: t.access_token },
        StepView::RefreshToken { refresh_token: r },
        StepView::Done(Err(SyncErrorView::ReauthorizationRequired)),
    ]);
    lemma_counts_small(tr);
}

/// Every sync trace is finite and bounded: at most two list requests
/// and at most one refresh, whatever the provider answers.
pub proof fn lemma_sync_bounded(
    max_results: u32,
    stored: Option<TokenView>,
    first: ListOutcomeView,
    refresh: RefreshOutcomeView,
    second: ListOutcomeView,
)
    ensures
        ({
            let tr = sync_trace(max_results, stored, first, refresh, second);
            &&& 1 <= tr.len() <= 4
            &&& count_fetches(tr) <= 2
            &&& count_refreshes(tr) <= 1
            &&& tr.last() is Done
        }),
{
    let tr = sync_trace(max_results, stored, first, refresh, second);
    lemma_counts_small(tr);
}

} // verus!
