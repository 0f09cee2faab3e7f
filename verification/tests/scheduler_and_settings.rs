use urms::scheduler::{plan_tick, TickPlan, FALLBACK_SLEEP_SECONDS};
use urms::settings::Settings;

#[test]
fn tick_disabled_without_interval() {
    assert_eq!(plan_tick(None), TickPlan::Disabled { sleep_seconds: FALLBACK_SLEEP_SECONDS });
    assert_eq!(plan_tick(Some(0)), TickPlan::Disabled { sleep_seconds: FALLBACK_SLEEP_SECONDS });
}

#[test]
fn tick_runs_with_interval() {
    assert_eq!(plan_tick(Some(1)), TickPlan::Run { sleep_seconds: 60 });
    assert_eq!(plan_tick(Some(15)), TickPlan::Run { sleep_seconds: 900 });
}

#[test]
fn tick_sleep_saturates() {
    assert_eq!(plan_tick(Some(u64::MAX)), TickPlan::Run { sleep_seconds: u64::MAX });
}

#[test]
fn settings_updates_are_independent() {
    let mut s = Settings::new();
    assert_eq!(s.google_calendar_id, None);
    assert_eq!(s.sync_interval_minutes, None);

    s.set_calendar_id("primary".to_string());
    assert_eq!(s.google_calendar_id.as_deref(), Some("primary"));
    assert_eq!(s.sync_interval_minutes, None);

    s.set_sync_interval(30);
    assert_eq!(s.sync_interval_minutes, Some(30));
    assert_eq!(s.google_calendar_id.as_deref(), Some("primary"));

    s.remove_calendar_id();
    assert_eq!(s.google_calendar_id, None);
    assert_eq!(s.sync_interval_minutes, Some(30));
}
