use urms::schedule::{Schedule, ScheduleManager};

#[test]
fn test_new_schedule_manager() {
    let manager = ScheduleManager::new();
    assert_eq!(manager.name, "ScheduleManager");
    assert_eq!(manager.schedules.len(), 0);
}

#[test]
fn test_schedule_structure() {
    let schedule = Schedule {
        id: "schedule_001".to_string(),
        manager_id: "mgr_001".to_string(),
        title: "Team Meeting".to_string(),
        description: "Weekly sync".to_string(),
        due_date: 1700000000,
        recurrence: "weekly".to_string(),
        priority: "high".to_string(),
        completed: false,
    };
    assert_eq!(schedule.id, "schedule_001");
    assert_eq!(schedule.title, "Team Meeting");
    assert_eq!(schedule.recurrence, "weekly");
    assert_eq!(schedule.priority, "high");
}

#[test]
fn test_create_schedule() {
    let mut manager = ScheduleManager::new();
    let schedule =
        manager.create_schedule("mgr_001", "Team Meeting", 1700000000, "weekly", "high").unwrap();
    assert_eq!(schedule.id, "schedule_1");
    assert_eq!(schedule.manager_id, "mgr_001");
    assert_eq!(schedule.title, "Team Meeting");
    assert_eq!(schedule.recurrence, "weekly");
    assert_eq!(schedule.priority, "high");
}

#[test]
fn test_create_multiple_schedules() {
    let mut manager = ScheduleManager::new();
    let _ = manager.create_schedule("mgr_001", "Meeting 1", 1700000000, "daily", "high").unwrap();
    let _ = manager.create_schedule("mgr_002", "Meeting 2", 1700000100, "weekly", "medium").unwrap();
    let third =
        manager.create_schedule("mgr_003", "Meeting 3", 1700000200, "monthly", "low").unwrap();
    assert_eq!(manager.schedules.len(), 3);
    assert_eq!(third.id, "schedule_3");
}

#[test]
fn test_update_schedule_title() {
    let mut manager = ScheduleManager::new();
    let created =
        manager.create_schedule("mgr_001", "Old Title", 1700000000, "weekly", "high").unwrap();
    let updated = manager.update_schedule(&created.id, Some("New Title"), None).unwrap();
    assert_eq!(updated.title, "New Title");
}

#[test]
fn test_update_schedule_priority() {
    let mut manager = ScheduleManager::new();
    let created = manager.create_schedule("mgr_001", "Task", 1700000000, "weekly", "low").unwrap();
    let updated = manager.update_schedule(&created.id, None, Some("high")).unwrap();
    assert_eq!(updated.priority, "high");
}

#[test]
fn test_update_schedule_nonexistent() {
    let mut manager = ScheduleManager::new();
    let result = manager.update_schedule("nonexistent", Some("Title"), None);
    assert!(result.is_err());
}

#[test]
fn test_delete_schedule_success() {
    let mut manager = ScheduleManager::new();
    let created = manager.create_schedule("mgr_001", "Task", 1700000000, "once", "low").unwrap();
    let deleted = manager.delete_schedule(&created.id).unwrap();
    assert!(deleted);
    assert_eq!(manager.schedules.len(), 0);
}

#[test]
fn test_delete_schedule_nonexistent() {
    let mut manager = ScheduleManager::new();
    let result = manager.delete_schedule("nonexistent");
    assert!(result.is_err());
}

#[test]
fn test_get_upcoming_schedules_future() {
    let mut manager = ScheduleManager::new();
    let now: u64 = 1700000000;
    let _ = manager.create_schedule("mgr_001", "Future Task", now + 3600, "once", "high").unwrap();
    let upcoming = manager.upcoming_at(now, 1);
    assert_eq!(upcoming.len(), 1);
}

#[test]
fn test_get_upcoming_schedules_past() {
    let mut manager = ScheduleManager::new();
    let now: u64 = 1700000000;
    let _ = manager.create_schedule("mgr_001", "Past Task", now - 86400, "once", "high").unwrap();
    let upcoming = manager.upcoming_at(now, 1);
    assert_eq!(upcoming.len(), 0);
}

#[test]
fn test_get_upcoming_schedules_window_end() {
    let mut manager = ScheduleManager::new();
    let now: u64 = 1700000000;
    // due two days out, asked for a one-day window
    let _ =
        manager.create_schedule("mgr_001", "Future Task", now + 2 * 86400, "once", "high").unwrap();
    assert_eq!(manager.upcoming_at(now, 1).len(), 0);
    assert_eq!(manager.upcoming_at(now, 2).len(), 1);
}

#[test]
fn test_recurrence_patterns() {
    let mut manager = ScheduleManager::new();
    let daily = manager.create_schedule("mgr_001", "Daily", 1700000000, "daily", "low").unwrap();
    let weekly = manager.create_schedule("mgr_002", "Weekly", 1700000000, "weekly", "low").unwrap();
    let monthly =
        manager.create_schedule("mgr_003", "Monthly", 1700000000, "monthly", "low").unwrap();
    let yearly = manager.create_schedule("mgr_004", "Yearly", 1700000000, "yearly", "low").unwrap();
    let once = manager.create_schedule("mgr_005", "Once", 1700000000, "once", "low").unwrap();
    assert_eq!(daily.recurrence, "daily");
    assert_eq!(weekly.recurrence, "weekly");
    assert_eq!(monthly.recurrence, "monthly");
    assert_eq!(yearly.recurrence, "yearly");
    assert_eq!(once.recurrence, "once");
}

#[test]
fn test_priority_levels() {
    let mut manager = ScheduleManager::new();
    let low = manager.create_schedule("mgr_001", "Low", 1700000000, "once", "low").unwrap();
    let medium = manager.create_schedule("mgr_002", "Medium", 1700000000, "once", "medium").unwrap();
    let high = manager.create_schedule("mgr_003", "High", 1700000000, "once", "high").unwrap();
    assert_eq!(low.priority, "low");
    assert_eq!(medium.priority, "medium");
    assert_eq!(high.priority, "high");
}
