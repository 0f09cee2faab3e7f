use urms::iot::{ControlResult, IoTDevice, IoTManager};

#[test]
fn test_new_iot_manager() {
    let manager = IoTManager::new();
    assert_eq!(manager.name, "IoTManager");
    assert_eq!(manager.devices.len(), 0);
}

#[test]
fn test_iot_device_structure() {
    let device = IoTDevice {
        id: "device_001".to_string(),
        name: "Living Room Light".to_string(),
        device_type: "light".to_string(),
        location: "Living Room".to_string(),
        powered: true,
        properties: Vec::new(),
    };
    assert_eq!(device.id, "device_001");
    assert_eq!(device.name, "Living Room Light");
    assert_eq!(device.device_type, "light");
    assert_eq!(device.location, "Living Room");
    assert_eq!(device.powered, true);
}

#[test]
fn test_control_result_structure() {
    let result = ControlResult { success: true, message: "Device powered on".to_string() };
    assert_eq!(result.success, true);
    assert_eq!(result.message, "Device powered on");
}

#[test]
fn test_initialize_devices() {
    let mut manager = IoTManager::new();
    manager.initialize().unwrap();
    assert_eq!(manager.devices.len(), 3);
    assert_eq!(manager.devices[0].device_type, "light");
    assert_eq!(manager.devices[1].device_type, "thermostat");
    assert_eq!(manager.devices[2].device_type, "camera");
}

#[test]
fn test_discover_devices_after_init() {
    let mut manager = IoTManager::new();
    manager.initialize().unwrap();
    let devices = manager.discover_devices().unwrap();
    assert_eq!(devices.len(), 3);
    assert!(devices.iter().any(|d| d.id == "device_001"));
}

#[test]
fn test_discover_devices_empty() {
    let manager = IoTManager::new();
    let devices = manager.discover_devices().unwrap();
    assert_eq!(devices.len(), 0);
}

#[test]
fn test_control_device_power_on() {
    let mut manager = IoTManager::new();
    manager.initialize().unwrap();
    let result = manager.control_device("device_001", "power_on").unwrap();
    assert_eq!(result.success, true);
    assert!(result.message.contains("powered on"));
}

#[test]
fn test_control_device_power_off() {
    let mut manager = IoTManager::new();
    manager.initialize().unwrap();
    let result = manager.control_device("device_001", "power_off").unwrap();
    assert_eq!(result.success, true);
    assert!(result.message.contains("powered off"));
}

#[test]
fn test_control_device_invalid_command() {
    let mut manager = IoTManager::new();
    manager.initialize().unwrap();
    let result = manager.control_device("device_001", "invalid_command");
    assert!(result.is_err());
}

#[test]
fn test_control_device_nonexistent() {
    let mut manager = IoTManager::new();
    manager.initialize().unwrap();
    let result = manager.control_device("device_999", "power_on");
    assert!(result.is_err());
    assert!(result.unwrap_err().contains("not found"));
}

#[test]
fn test_get_device_status_success() {
    let mut manager = IoTManager::new();
    manager.initialize().unwrap();
    let device = manager.get_device_status("device_001").unwrap();
    assert_eq!(device.name, "Living Room Light");
    assert_eq!(device.device_type, "light");
}

#[test]
fn test_get_device_status_nonexistent() {
    let mut manager = IoTManager::new();
    manager.initialize().unwrap();
    let result = manager.get_device_status("device_999");
    assert!(result.is_err());
}

#[test]
fn test_control_then_check_status() {
    let mut manager = IoTManager::new();
    manager.initialize().unwrap();
    manager.control_device("device_001", "power_off").unwrap();
    let device = manager.get_device_status("device_001").unwrap();
    assert_eq!(device.powered, false);
    manager.control_device("device_001", "power_on").unwrap();
    let device = manager.get_device_status("device_001").unwrap();
    assert_eq!(device.powered, true);
}

#[test]
fn test_multiple_device_types() {
    let mut manager = IoTManager::new();
    manager.initialize().unwrap();
    let devices = manager.discover_devices().unwrap();
    let device_types: Vec<String> = devices.iter().map(|d| d.device_type.clone()).collect();
    assert!(device_types.contains(&"light".to_string()));
    assert!(device_types.contains(&"thermostat".to_string()));
    assert!(device_types.contains(&"camera".to_string()));
}
