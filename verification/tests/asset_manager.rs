use urms::asset::{Asset, AssetManager};
use urms::base::ManagerState;

fn asset(id: &str, name: &str, asset_type: &str, location: Option<&str>, status: &str) -> Asset {
    Asset {
        id: id.to_string(),
        name: name.to_string(),
        asset_type: asset_type.to_string(),
        location: location.map(|s| s.to_string()),
        purchase_date: None,
        warranty: None,
        status: status.to_string(),
        metadata: None,
    }
}

#[test]
fn test_asset_manager_creation() {
    let manager = AssetManager::new();
    assert_eq!(manager.state, ManagerState::Uninitialized);
    assert_eq!(manager.count_assets(), 0);
}

#[test]
fn test_add_asset() {
    let mut manager = AssetManager::new();
    let a = asset("asset1", "Test Device", "device", Some("Office"), "active");
    let result = manager.add_asset(a);
    assert!(result.is_ok());
    assert_eq!(manager.count_assets(), 1);
}

#[test]
fn test_duplicate_asset_id() {
    let mut manager = AssetManager::new();
    let a = asset("asset1", "Test Device", "device", None, "active");
    let _ = manager.add_asset(a.clone());
    let result = manager.add_asset(a);
    assert!(result.is_err());
}

#[test]
fn test_count_by_status() {
    let mut manager = AssetManager::new();
    let active_asset = asset("asset1", "Active Device", "device", None, "active");
    let maintenance_asset = asset("asset2", "Maintenance Device", "device", None, "maintenance");
    let _ = manager.add_asset(active_asset);
    let _ = manager.add_asset(maintenance_asset);
    assert_eq!(manager.count_by_status("active"), 1);
    assert_eq!(manager.count_by_status("maintenance"), 1);
    assert_eq!(manager.count_by_status("inactive"), 0);
}

#[test]
fn test_get_update_delete_asset() {
    let mut manager = AssetManager::new();
    let _ = manager.add_asset(asset("a1", "Printer", "device", None, "active"));
    let got = manager.get_asset("a1").unwrap();
    assert_eq!(got.name, "Printer");

    let renamed = asset("a1", "Printer 2", "device", None, "inactive");
    assert!(manager.update_asset("a1", renamed).is_ok());
    assert_eq!(manager.get_asset("a1").unwrap().name, "Printer 2");
    assert_eq!(manager.count_by_status("inactive"), 1);

    assert!(manager.delete_asset("a1").is_ok());
    assert!(manager.get_asset("a1").is_err());
    assert!(manager.delete_asset("a1").is_err());
    assert_eq!(manager.count_assets(), 0);
}

#[test]
fn test_get_all_assets_order() {
    let mut manager = AssetManager::new();
    let _ = manager.add_asset(asset("a1", "One", "device", None, "active"));
    let _ = manager.add_asset(asset("a2", "Two", "device", None, "active"));
    let all = manager.get_all_assets();
    assert_eq!(all.len(), 2);
    assert_eq!(all[0].id, "a1");
    assert_eq!(all[1].id, "a2");
}

#[test]
fn test_asset_error_details() {
    let mut manager = AssetManager::new();
    let _ = manager.add_asset(asset("a1", "One", "device", None, "active"));
    let err = manager.add_asset(asset("a1", "Clone", "device", None, "active")).unwrap_err();
    assert_eq!(err.error_type, "DuplicateId");
    assert_eq!(err.message, "Asset with ID a1 already exists");
    let err = manager.get_asset("missing").unwrap_err();
    assert_eq!(err.error_type, "NotFound");
}
