use urms::calendar::CalendarManager;
use urms::engine::{ListOutcome, RefreshOutcome, SyncEngine, SyncError, SyncStep};
use urms::token::{CalendarEvent, OAuthToken, SyncRequest};

fn request(calendar_id: &str, max_results: u32) -> SyncRequest {
    SyncRequest { calendar_id: calendar_id.to_string(), max_results }
}

fn token(access: &str, refresh: Option<&str>) -> OAuthToken {
    OAuthToken {
        access_token: access.to_string(),
        refresh_token: refresh.map(|s| s.to_string()),
        token_type: "Bearer".to_string(),
        expires_in: 3600,
        scope: "calendar".to_string(),
    }
}

fn events(n: usize) -> Vec<CalendarEvent> {
    (0..n).map(|i| CalendarEvent { raw: format!("{{\"event\":{}}}", i) }).collect()
}

/// Calendar id "primary", max five results, stored token A1/R1, the
/// provider answers with three items: those three come back and no
/// refresh is ever requested.
#[test]
fn sync_valid_token_returns_items_without_refresh() {
    let (mut engine, step) = SyncEngine::begin(&request("primary", 5), Some(token("A1", Some("R1"))));
    match step {
        SyncStep::FetchEvents { access_token } => assert_eq!(access_token, "A1"),
        _ => panic!("expected a fetch step"),
    }
    let step = engine.on_fetch(ListOutcome::Listed(events(3)));
    match step {
        SyncStep::Done(Ok(items)) => {
            assert_eq!(items.len(), 3);
            assert_eq!(items[0].raw, "{\"event\":0}");
        },
        _ => panic!("expected a successful finish"),
    }
}

/// The provider rejects A1; the refresh yields A2; the retry with A2
/// succeeds with two items.
#[test]
fn sync_single_refresh_then_retry() {
    let (mut engine, step) = SyncEngine::begin(&request("primary", 5), Some(token("A1", Some("R1"))));
    match step {
        SyncStep::FetchEvents { access_token } => assert_eq!(access_token, "A1"),
        _ => panic!("expected a fetch step"),
    }
    let step = engine.on_fetch(ListOutcome::Unauthorized);
    match step {
        SyncStep::RefreshToken { refresh_token } => assert_eq!(refresh_token, "R1"),
        _ => panic!("expected a refresh step"),
    }
    let step = engine.on_refresh(RefreshOutcome::Refreshed(token("A2", None)));
    match step {
        SyncStep::FetchEvents { access_token } => assert_eq!(access_token, "A2"),
        _ => panic!("expected a retried fetch"),
    }
    let step = engine.on_fetch(ListOutcome::Listed(events(2)));
    match step {
        SyncStep::Done(Ok(items)) => assert_eq!(items.len(), 2),
        _ => panic!("expected a successful finish"),
    }
}

/// A stored token without a refresh token, rejected by the provider:
/// the call ends at once with reauthorization required.
#[test]
fn sync_without_refresh_token_is_terminal() {
    let (mut engine, step) = SyncEngine::begin(&request("primary", 5), Some(token("A1", None)));
    assert!(matches!(step, SyncStep::FetchEvents { .. }));
    let step = engine.on_fetch(ListOutcome::Unauthorized);
    match step {
        SyncStep::Done(Err(SyncError::ReauthorizationRequired)) => (),
        _ => panic!("expected reauthorization required"),
    }
}

/// A failed refresh is terminal: no third network step.
#[test]
fn sync_failed_refresh_is_terminal() {
    let (mut engine, step) = SyncEngine::begin(&request("primary", 5), Some(token("A1", Some("R1"))));
    assert!(matches!(step, SyncStep::FetchEvents { .. }));
    let step = engine.on_fetch(ListOutcome::Unauthorized);
    assert!(matches!(step, SyncStep::RefreshToken { .. }));
    let step = engine.on_refresh(RefreshOutcome::Failed);
    match step {
        SyncStep::Done(Err(SyncError::ReauthorizationRequired)) => (),
        _ => panic!("expected reauthorization required"),
    }
}

/// No stored token means no network call at all.
#[test]
fn sync_without_stored_token_is_not_authorized() {
    let (_engine, step) = SyncEngine::begin(&request("primary", 5), None);
    match step {
        SyncStep::Done(Err(SyncError::NotAuthorized)) => (),
        _ => panic!("expected not authorized"),
    }
}

/// A transport failure is reported as such, not retried.
#[test]
fn sync_transport_failure_surfaces() {
    let (mut engine, _) = SyncEngine::begin(&request("primary", 5), Some(token("A1", Some("R1"))));
    let step = engine.on_fetch(ListOutcome::TransportError("connection reset".to_string()));
    match step {
        SyncStep::Done(Err(SyncError::Transport(m))) => assert_eq!(m, "connection reset"),
        _ => panic!("expected a transport error"),
    }
}

/// A malformed body is an invalid response.
#[test]
fn sync_malformed_body_surfaces() {
    let (mut engine, _) = SyncEngine::begin(&request("primary", 5), Some(token("A1", Some("R1"))));
    let step = engine.on_fetch(ListOutcome::MalformedBody("not json".to_string()));
    assert!(matches!(step, SyncStep::Done(Err(SyncError::InvalidResponse(_)))));
}

/// A second rejection, after a successful refresh, is terminal.
#[test]
fn sync_second_unauthorized_is_terminal() {
    let (mut engine, _) = SyncEngine::begin(&request("primary", 5), Some(token("A1", Some("R1"))));
    let _ = engine.on_fetch(ListOutcome::Unauthorized);
    let _ = engine.on_refresh(RefreshOutcome::Refreshed(token("A2", None)));
    let step = engine.on_fetch(ListOutcome::Unauthorized);
    match step {
        SyncStep::Done(Err(SyncError::ReauthorizationRequired)) => (),
        _ => panic!("expected reauthorization required"),
    }
}

/// A sync result never exceeds the requested size.
#[test]
fn sync_result_capped_at_max_results() {
    let (mut engine, _) = SyncEngine::begin(&request("primary", 2), Some(token("A1", None)));
    let step = engine.on_fetch(ListOutcome::Listed(events(5)));
    match step {
        SyncStep::Done(Ok(items)) => {
            assert_eq!(items.len(), 2);
            assert_eq!(items[0].raw, "{\"event\":0}");
            assert_eq!(items[1].raw, "{\"event\":1}");
        },
        _ => panic!("expected a successful finish"),
    }
}

#[test]
fn calendar_manager_caches_and_caps() {
    let mut manager = CalendarManager::new();
    assert_eq!(manager.count_events(), 0);
    manager.record_sync(events(4));
    assert_eq!(manager.count_events(), 4);
    let two = manager.get_events(2);
    assert_eq!(two.len(), 2);
    assert_eq!(two[1].raw, "{\"event\":1}");
    let all = manager.get_events(10);
    assert_eq!(all.len(), 4);
}
