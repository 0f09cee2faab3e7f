use urms::network::{NetworkDevice, NetworkManager, NetworkStats};

#[test]
fn test_new_network_manager() {
    let manager = NetworkManager::new();
    assert_eq!(manager.name, "NetworkManager");
    assert_eq!(manager.devices.len(), 0);
    assert_eq!(manager.stats.devices_online, 0);
    assert_eq!(manager.stats.devices_offline, 0);
}

#[test]
fn test_network_device_structure() {
    let device = NetworkDevice {
        ip: "192.168.1.1".to_string(),
        mac: "00:1A:2B:3C:4D:5E".to_string(),
        hostname: "gateway".to_string(),
        online: true,
        latency: 5,
    };
    assert_eq!(device.ip, "192.168.1.1");
    assert_eq!(device.mac, "00:1A:2B:3C:4D:5E");
    assert_eq!(device.hostname, "gateway");
    assert_eq!(device.online, true);
    assert_eq!(device.latency, 5);
}

#[test]
fn test_network_stats_structure() {
    let stats = NetworkStats {
        devices_online: 3,
        devices_offline: 1,
        average_latency: 5,
        network_status: "normal".to_string(),
    };
    assert_eq!(stats.devices_online, 3);
    assert_eq!(stats.devices_offline, 1);
    assert_eq!(stats.average_latency, 5);
    assert_eq!(stats.network_status, "normal");
}

#[test]
fn test_network_stats_warning_status() {
    let stats = NetworkStats {
        devices_online: 1,
        devices_offline: 2,
        average_latency: 10,
        network_status: "warning".to_string(),
    };
    assert_eq!(stats.network_status, "warning");
}

#[test]
fn test_network_stats_critical_status() {
    let stats = NetworkStats {
        devices_online: 0,
        devices_offline: 3,
        average_latency: 0,
        network_status: "critical".to_string(),
    };
    assert_eq!(stats.network_status, "critical");
}

#[test]
fn test_scan_network_success() {
    let mut manager = NetworkManager::new();
    let devices = manager.scan_network("192.168.1").unwrap();
    assert!(devices.len() > 0);
    assert!(devices.iter().any(|d| d.ip == "192.168.1.1"));
    assert_eq!(manager.devices.len(), devices.len());
}

#[test]
fn test_scan_network_updates_stats() {
    let mut manager = NetworkManager::new();
    manager.scan_network("192.168.1").unwrap();
    assert!(manager.stats.devices_online > 0);
    assert!(manager.stats.devices_offline >= 0);
}

#[test]
fn test_scan_network_empty_subnet() {
    let mut manager = NetworkManager::new();
    let devices = manager.scan_network("").unwrap();
    assert!(devices.len() > 0);
}

#[test]
fn test_scan_network_no_match() {
    let mut manager = NetworkManager::new();
    let devices = manager.scan_network("10.0.0").unwrap();
    assert_eq!(devices.len(), 0);
}

#[test]
fn test_ping_device_gateway() {
    let manager = NetworkManager::new();
    let latency = manager.ping_device("192.168.1.1").unwrap();
    assert_eq!(latency, 1);
}

#[test]
fn test_ping_device_google_dns() {
    let manager = NetworkManager::new();
    let latency = manager.ping_device("8.8.8.8").unwrap();
    assert_eq!(latency, 15);
}

#[test]
fn test_ping_device_cloudflare_dns() {
    let manager = NetworkManager::new();
    let latency = manager.ping_device("1.1.1.1").unwrap();
    assert_eq!(latency, 12);
}

#[test]
fn test_ping_device_unknown() {
    let manager = NetworkManager::new();
    let latency = manager.ping_device("192.168.1.200").unwrap();
    assert_eq!(latency, 10);
}

#[test]
fn test_get_network_stats_after_scan() {
    let mut manager = NetworkManager::new();
    manager.scan_network("192.168.1").unwrap();
    let stats = manager.get_network_stats().unwrap();
    assert!(stats.devices_online > 0);
    // 2 devices online, 1 offline -> status is "warning" (< 3 online)
    assert_eq!(stats.network_status, "warning");
}

#[test]
fn test_scan_keeps_fixture_order() {
    let mut manager = NetworkManager::new();
    let devices = manager.scan_network("192.168.1").unwrap();
    assert_eq!(devices.len(), 3);
    assert_eq!(devices[0].ip, "192.168.1.1");
    assert_eq!(devices[1].ip, "192.168.1.100");
    assert_eq!(devices[2].ip, "192.168.1.101");
    // a tighter prefix keeps only the matching tail devices, in order
    let devices = manager.scan_network("192.168.1.10").unwrap();
    assert_eq!(devices.len(), 2);
    assert_eq!(devices[0].ip, "192.168.1.100");
    assert_eq!(devices[1].ip, "192.168.1.101");
}

#[test]
fn test_scan_statistics_exact() {
    let mut manager = NetworkManager::new();
    manager.scan_network("").unwrap();
    assert_eq!(manager.stats.devices_online, 2);
    assert_eq!(manager.stats.devices_offline, 1);
    // gateway latency 1 and desktop latency 5 average to 3
    assert_eq!(manager.stats.average_latency, 3);
    assert_eq!(manager.stats.network_status, "warning");
}
