use urms::base::{format_manager_error, ManagerError, ManagerRegistry, ManagerState};
use urms::errors::{log_error, URMSError};

#[test]
fn test_manager_error_creation() {
    let err = ManagerError::new("TestManager", "test_op", "test message", "TestError");
    assert_eq!(err.manager, "TestManager");
    assert_eq!(err.operation, "test_op");
}

#[test]
fn test_manager_registry() {
    let mut registry = ManagerRegistry::new();
    registry.register("TestManager");
    assert_eq!(registry.get_state("TestManager"), Some(ManagerState::Uninitialized));
}

#[test]
fn test_io_error_conversion() {
    let io_err = std::io::Error::new(std::io::ErrorKind::NotFound, "file not found");
    let urms_err = URMSError::from_io_message(io_err.to_string());
    match urms_err {
        URMSError::IoError { .. } => (),
        _ => panic!("Expected IoError"),
    }
}

#[test]
fn test_validation_error_display() {
    let err = URMSError::ValidationError {
        field: "email".to_string(),
        reason: "Invalid format".to_string(),
    };
    assert!(err.message().contains("email"));
}

#[test]
fn test_manager_error_log_line() {
    let err = ManagerError::new("CalendarManager", "sync", "timed out", "Timeout");
    assert_eq!(err.log(), "[CalendarManager] sync failed: timed out (Timeout)");
}

#[test]
fn test_format_manager_error_line() {
    let err = ManagerError::new("AssetManager", "add_asset", "duplicate", "DuplicateId");
    assert_eq!(format_manager_error(err), "AssetManager::add_asset - duplicate (DuplicateId)");
}

#[test]
fn test_registry_set_state_overwrites() {
    let mut registry = ManagerRegistry::new();
    registry.register("M");
    registry.set_state("M", ManagerState::Ready);
    assert_eq!(registry.get_state("M"), Some(ManagerState::Ready));
    assert_eq!(registry.get_state("unknown"), None);
}

#[test]
fn test_error_messages_per_variant() {
    let e = URMSError::NetworkError { message: "down".to_string() };
    assert_eq!(e.message(), "Network Error: down");
    let e = URMSError::NotFound { resource: "token".to_string() };
    assert_eq!(e.message(), "Not Found: token");
    let e = URMSError::Timeout { operation: "sync".to_string() };
    assert_eq!(e.message(), "Timeout: sync");
    let e = URMSError::Internal { message: "boom".to_string() };
    assert_eq!(e.message(), "Internal Error: boom");
    let e = URMSError::ConfigError { message: "bad".to_string() };
    assert_eq!(e.message(), "Config Error: bad");
    let e = URMSError::PermissionDenied { resource: "file".to_string() };
    assert_eq!(e.message(), "Permission Denied: file");
    let e = URMSError::IoError { message: "eof".to_string(), context: None };
    assert_eq!(e.message(), "IO Error: eof");
}

#[test]
fn test_from_string_is_internal() {
    let e: URMSError = URMSError::from("oops".to_string());
    match e {
        URMSError::Internal { message } => assert_eq!(message, "oops"),
        _ => panic!("Expected Internal"),
    }
}

#[test]
fn test_log_error_line() {
    let e = URMSError::ValidationError { field: "email".to_string(), reason: "bad".to_string() };
    let line = log_error("SettingsManager", "save", &e);
    assert_eq!(line, "[SettingsManager] Operation 'save' failed: Validation Error - email: bad");
}
