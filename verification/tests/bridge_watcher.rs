use urms::bridge::{
    consume, data_file_path, marker_file_path, render_events_array, should_fetch, PollSignals,
    WatcherState,
};
use urms::token::CalendarEvent;

fn ev(text: &str) -> CalendarEvent {
    CalendarEvent { raw: text.to_string() }
}

#[test]
fn bridge_paths_are_fixed() {
    assert_eq!(data_file_path(), "data/calendar_events.json");
    assert_eq!(marker_file_path(), "data/calendar_emit.trigger");
}

/// The producer writes four events and the marker; the watcher's poll
/// sees the marker, delivers, deletes the marker; the next poll with no
/// changes delivers nothing.
#[test]
fn watcher_delivers_once_then_goes_quiet() {
    let mut st = WatcherState::initial();

    // producer wrote the data file (mtime 1000) and the marker
    let sig = PollSignals { data_mtime: Some(1000), marker_present: true };
    assert!(should_fetch(&st, sig));
    // the watcher reads the four events and parses them
    let events = vec![ev("{\"a\":1}"), ev("{\"b\":2}"), ev("{\"c\":3}"), ev("{\"d\":4}")];
    assert_eq!(events.len(), 4);
    let plan = consume(&mut st, sig, true);
    assert!(plan.deliver);
    assert!(plan.delete_marker);
    assert_eq!(st.last_mtime, Some(1000));

    // nothing changed; the marker is gone
    let sig2 = PollSignals { data_mtime: Some(1000), marker_present: false };
    assert!(!should_fetch(&st, sig2));
}

/// Two consumer invocations with no intervening producer write yield
/// one delivered result and one no-op.
#[test]
fn watcher_consumption_is_idempotent() {
    let mut st = WatcherState::initial();
    let sig = PollSignals { data_mtime: Some(7), marker_present: false };
    assert!(should_fetch(&st, sig));
    let plan = consume(&mut st, sig, true);
    assert!(plan.deliver);
    assert!(!plan.delete_marker);
    let again = PollSignals { data_mtime: Some(7), marker_present: false };
    assert!(!should_fetch(&st, again));
}

/// A changed modification time triggers even without the marker.
#[test]
fn watcher_triggers_on_mtime_change() {
    let st = WatcherState { last_mtime: Some(5) };
    assert!(should_fetch(&st, PollSignals { data_mtime: Some(6), marker_present: false }));
    assert!(!should_fetch(&st, PollSignals { data_mtime: Some(5), marker_present: false }));
}

/// An absent data file never triggers by time alone.
#[test]
fn watcher_ignores_missing_data_file() {
    let st = WatcherState::initial();
    assert!(!should_fetch(&st, PollSignals { data_mtime: None, marker_present: false }));
    assert!(should_fetch(&st, PollSignals { data_mtime: None, marker_present: true }));
}

/// A parse failure delivers nothing and leaves the bookmark alone, so
/// a corrected rewrite is retried on the next poll.
#[test]
fn watcher_retries_after_parse_failure() {
    let mut st = WatcherState { last_mtime: Some(3) };
    let sig = PollSignals { data_mtime: Some(9), marker_present: false };
    assert!(should_fetch(&st, sig));
    let plan = consume(&mut st, sig, false);
    assert!(!plan.deliver);
    assert!(!plan.delete_marker);
    assert_eq!(st.last_mtime, Some(3));
    // the rewrite arrives with a fresh timestamp, or even the same one
    assert!(should_fetch(&st, PollSignals { data_mtime: Some(9), marker_present: false }));
}

#[test]
fn events_render_as_one_array() {
    let none: Vec<CalendarEvent> = Vec::new();
    assert_eq!(render_events_array(&none), "[]");
    let one = vec![ev("{\"a\":1}")];
    assert_eq!(render_events_array(&one), "[{\"a\":1}]");
    let three = vec![ev("{\"a\":1}"), ev("{\"b\":2}"), ev("{\"c\":3}")];
    assert_eq!(render_events_array(&three), "[{\"a\":1},{\"b\":2},{\"c\":3}]");
}
