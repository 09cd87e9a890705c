use vfio_tool::config::{default_true, get_config_path, save_config, validate_config, Config};
use vfio_tool::device::{DeviceStatus, NetworkDevice};
use vfio_tool::mapping::Mappings;
use vfio_tool::resolve::{resolve_bind_target, BindTarget};

fn dev(interface: &str, addr: &str, driver: Option<&str>, status: DeviceStatus) -> NetworkDevice {
    NetworkDevice {
        interface: interface.to_string(),
        pci_address: addr.to_string(),
        driver: driver.map(|d| d.to_string()),
        iommu_group: None,
        vendor_id: "0x8086".to_string(),
        device_id: "0x1572".to_string(),
        speed: None,
        max_speed: None,
        status,
    }
}

#[test]
fn empty_store_has_nothing() {
    let m = Mappings::new();
    assert_eq!(m.len(), 0);
    assert!(m.get("eth0").is_none());
    assert!(m.name_for_address("0000:01:00.0").is_none());
}

#[test]
fn insert_and_get() {
    let mut m = Mappings::new();
    m.insert("eth0".to_string(), "0000:01:00.0".to_string());
    assert_eq!(m.get("eth0").unwrap(), "0000:01:00.0");
    assert!(m.get("eth1").is_none());
}

#[test]
fn insert_overwrites_same_name() {
    let mut m = Mappings::new();
    m.insert("eth0".to_string(), "0000:01:00.0".to_string());
    m.insert("eth0".to_string(), "0000:02:00.0".to_string());
    assert_eq!(m.len(), 1);
    assert_eq!(m.get("eth0").unwrap(), "0000:02:00.0");
}

#[test]
fn address_lookup_finds_first_pair() {
    let mut m = Mappings::new();
    m.insert("eth0".to_string(), "0000:01:00.0".to_string());
    m.insert("eth1".to_string(), "0000:02:00.0".to_string());
    assert_eq!(m.name_for_address("0000:02:00.0").unwrap(), "eth1");
    assert!(m.name_for_address("0000:03:00.0").is_none());
}

#[test]
fn merge_keeps_entries_absent_from_discovery() {
    // M1 holds a pair whose address the discovery did not see again; the
    // merged store keeps it and takes all of M2.
    let mut m1 = Mappings::new();
    m1.insert("eth0".to_string(), "0000:01:00.0".to_string());
    m1.insert("eth1".to_string(), "0000:02:00.0".to_string());
    let mut m2 = Mappings::new();
    m2.insert("eth1".to_string(), "0000:02:00.0".to_string());
    m2.insert("eth2".to_string(), "0000:03:00.0".to_string());
    m1.merge_from(&m2);
    assert_eq!(m1.get("eth0").unwrap(), "0000:01:00.0");
    assert_eq!(m1.get("eth1").unwrap(), "0000:02:00.0");
    assert_eq!(m1.get("eth2").unwrap(), "0000:03:00.0");
    assert_eq!(m1.len(), 3);
}

#[test]
fn merge_discovered_wins_on_same_name() {
    let mut m1 = Mappings::new();
    m1.insert("eth0".to_string(), "0000:01:00.0".to_string());
    let mut m2 = Mappings::new();
    m2.insert("eth0".to_string(), "0000:09:00.0".to_string());
    m1.merge_from(&m2);
    assert_eq!(m1.len(), 1);
    assert_eq!(m1.get("eth0").unwrap(), "0000:09:00.0");
}

#[test]
fn bound_name_resolves_through_store_after_device_vanishes() {
    // Round trip: the name committed by a bind is still resolvable when no
    // live record exists any more.
    let mut store = Mappings::new();
    store.insert("eth0".to_string(), "0000:01:00.0".to_string());
    match resolve_bind_target("eth0", &None, &store) {
        Ok(BindTarget::Address(a)) => assert_eq!(a, "0000:01:00.0"),
        _ => panic!("expected the stored address"),
    }
}

#[test]
fn unknown_name_is_not_found() {
    let store = Mappings::new();
    assert!(resolve_bind_target("eth9", &None, &store).is_err());
}

#[test]
fn default_config_is_empty_with_options_on() {
    let c = Config::default();
    assert!(c.devices.vfio.is_empty());
    assert!(c.devices.kernel.is_empty());
    assert_eq!(c.devices.pci_mappings.len(), 0);
    assert!(c.options.set_permissions);
    assert!(c.options.auto_load_module);
    assert!(default_true());
}

#[test]
fn config_path_is_fixed() {
    assert_eq!(get_config_path(), "/etc/vfio-tool/config.toml");
}

#[test]
fn save_config_refreshes_known_interfaces() {
    let mut existing = Mappings::new();
    existing.insert("eth0".to_string(), "0000:0a:00.0".to_string());
    existing.insert("old0".to_string(), "0000:0b:00.0".to_string());
    let devices = vec![
        dev("eth0", "0000:01:00.0", Some("ixgbe"), DeviceStatus::Kernel),
        dev("eth1", "0000:02:00.0", Some("i40e"), DeviceStatus::Kernel),
    ];
    let cfg = save_config(
        vec!["eth0".to_string()],
        vec!["eth1".to_string()],
        &existing,
        &devices,
    );
    // eth0's mapping is refreshed, eth1's added, old0's kept.
    assert_eq!(cfg.devices.pci_mappings.get("eth0").unwrap(), "0000:01:00.0");
    assert_eq!(cfg.devices.pci_mappings.get("eth1").unwrap(), "0000:02:00.0");
    assert_eq!(cfg.devices.pci_mappings.get("old0").unwrap(), "0000:0b:00.0");
    assert_eq!(cfg.devices.vfio, vec!["eth0".to_string()]);
    assert_eq!(cfg.devices.kernel, vec!["eth1".to_string()]);
    assert!(cfg.options.set_permissions);
}

#[test]
fn validation_reports_missing_and_unconfigured() {
    let mut cfg = Config::default();
    cfg.devices.vfio.push("eth0".to_string());
    cfg.devices.kernel.push("eth1".to_string());
    let devices = vec![
        dev("eth1", "0000:02:00.0", Some("i40e"), DeviceStatus::Kernel),
        dev("eth2", "0000:03:00.0", Some("mlx5_core"), DeviceStatus::Kernel),
    ];
    let report = validate_config(&cfg, &devices);
    assert_eq!(report.missing_vfio, vec!["eth0".to_string()]);
    assert!(report.missing_kernel.is_empty());
    assert_eq!(report.unconfigured, vec!["eth2".to_string()]);
    assert!(!report.is_valid());
}

#[test]
fn validation_passes_on_matching_hardware() {
    let mut cfg = Config::default();
    cfg.devices.vfio.push("eth0".to_string());
    let devices = vec![dev("eth0", "0000:01:00.0", Some("ixgbe"), DeviceStatus::Kernel)];
    let report = validate_config(&cfg, &devices);
    assert!(report.is_valid());
}
