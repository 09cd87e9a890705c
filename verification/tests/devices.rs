use vfio_tool::addr::is_pci_address;
use vfio_tool::device::{
    derive_status, get_device_info, get_device_info_by_pci, get_iommu_group, get_link_speed,
    get_max_speed, get_vfio_device_info, list_network_devices, DeviceStatus, NetworkDevice,
    PciDeviceEntry, SpeedReading,
};
use vfio_tool::display::{get_device_description, status_to_string};
use vfio_tool::mapping::Mappings;

fn entry(name: &str, class: &str, driver: Option<&str>, net: &[&str]) -> PciDeviceEntry {
    PciDeviceEntry {
        name: name.to_string(),
        class: Some(class.to_string()),
        driver: driver.map(|d| d.to_string()),
        iommu_group_link: Some("7".to_string()),
        vendor: Some("0x8086\n".to_string()),
        device: Some("0x1572\n".to_string()),
        net_names: net.iter().map(|n| n.to_string()).collect(),
        speed: SpeedReading::Content("10000\n".to_string()),
    }
}

#[test]
fn pci_address_shape() {
    assert!(is_pci_address("0000:01:00.0"));
    assert!(!is_pci_address("eth0"));
    assert!(!is_pci_address("0000:01:00"));
    assert!(!is_pci_address("module.bin"));
}

#[test]
fn status_from_driver_symlink() {
    assert_eq!(derive_status(&Some("vfio-pci".to_string())), DeviceStatus::Vfio);
    assert_eq!(derive_status(&Some("ixgbe".to_string())), DeviceStatus::Kernel);
    assert_eq!(derive_status(&None), DeviceStatus::Unbound);
}

#[test]
fn iommu_group_parses_basename() {
    assert_eq!(get_iommu_group(&Some("17".to_string())), Some(17));
    assert_eq!(get_iommu_group(&Some("groups".to_string())), None);
    assert_eq!(get_iommu_group(&None), None);
}

#[test]
fn max_speed_table_values() {
    assert_eq!(get_max_speed("0x8086", "0x158a").unwrap(), "25G");
    assert_eq!(get_max_speed("0x8086", "0x1572").unwrap(), "10G");
    assert_eq!(get_max_speed("0x8086", "0x1583").unwrap(), "40G");
    assert_eq!(get_max_speed("0x8086", "0x1591").unwrap(), "100G");
    assert_eq!(get_max_speed("0x8086", "0x1521").unwrap(), "1G");
    assert_eq!(get_max_speed("0x15b3", "0x101f").unwrap(), "25G");
    assert_eq!(get_max_speed("0x15b3", "0x1017").unwrap(), "50G");
    assert_eq!(get_max_speed("0x14e4", "0x16dc").unwrap(), "100G");
    assert_eq!(get_max_speed("0x1425", "0x5681").unwrap(), "100G");
    assert_eq!(get_max_speed("0x1924", "0x0903").unwrap(), "40G");
    assert_eq!(get_max_speed("0x1077", "0x8070").unwrap(), "10G");
    assert!(get_max_speed("0xdead", "0xbeef").is_none());
    assert!(get_max_speed("0x8086", "0xffff").is_none());
}

#[test]
fn link_speed_labels() {
    assert_eq!(get_link_speed(&SpeedReading::Content("10000\n".to_string())), "10G");
    assert_eq!(get_link_speed(&SpeedReading::Content("25000".to_string())), "25G");
    assert_eq!(get_link_speed(&SpeedReading::Content("100\n".to_string())), "100M");
    assert_eq!(get_link_speed(&SpeedReading::Content("-1\n".to_string())), "no link");
    assert_eq!(get_link_speed(&SpeedReading::Content("gibberish".to_string())), "?");
    assert_eq!(get_link_speed(&SpeedReading::ErrInvalidInput), "down");
    assert_eq!(get_link_speed(&SpeedReading::ErrOther), "?");
}

#[test]
fn kernel_record_takes_live_name_and_speed() {
    let store = Mappings::new();
    let e = entry("0000:01:00.0", "0x020000\n", Some("ixgbe"), &["eth0"]);
    let d = get_device_info_by_pci(&e, &store).unwrap();
    assert_eq!(d.interface, "eth0");
    assert_eq!(d.pci_address, "0000:01:00.0");
    assert_eq!(d.driver.as_deref(), Some("ixgbe"));
    assert_eq!(d.status, DeviceStatus::Kernel);
    assert_eq!(d.vendor_id, "0x8086");
    assert_eq!(d.device_id, "0x1572");
    assert_eq!(d.iommu_group, Some(7));
    assert_eq!(d.max_speed.as_deref(), Some("10G"));
    assert_eq!(d.speed.as_deref(), Some("10G"));
}

#[test]
fn bypass_record_uses_stored_name_and_no_speed() {
    let mut store = Mappings::new();
    store.insert("eth0".to_string(), "0000:01:00.0".to_string());
    let e = entry("0000:01:00.0", "0x020000\n", Some("vfio-pci"), &[]);
    let d = get_device_info_by_pci(&e, &store).unwrap();
    assert_eq!(d.interface, "eth0");
    assert_eq!(d.status, DeviceStatus::Vfio);
    assert!(d.speed.is_none());
}

#[test]
fn unknown_bypass_device_gets_bracketed_name() {
    let store = Mappings::new();
    let e = entry("0000:01:00.0", "0x020000\n", Some("vfio-pci"), &[]);
    let d = get_device_info_by_pci(&e, &store).unwrap();
    assert_eq!(d.interface, "(0000:01:00.0)");
}

#[test]
fn unreadable_ids_fail_per_device() {
    let store = Mappings::new();
    let mut e = entry("0000:01:00.0", "0x020000\n", Some("ixgbe"), &["eth0"]);
    e.vendor = None;
    assert!(get_device_info_by_pci(&e, &store).is_err());
}

#[test]
fn vfio_record_is_pinned_to_bypass_driver() {
    let e = entry("0000:01:00.0", "0x020000\n", Some("vfio-pci"), &[]);
    let d = get_vfio_device_info(&e, "eth0").unwrap();
    assert_eq!(d.driver.as_deref(), Some("vfio-pci"));
    assert_eq!(d.status, DeviceStatus::Vfio);
    assert!(d.speed.is_none());
    assert_eq!(d.interface, "eth0");
}

#[test]
fn live_interface_resolution() {
    let e = entry("0000:01:00.0", "0x020000\n", Some("ixgbe"), &["eth0"]);
    let d = get_device_info("eth0", &Some(e)).unwrap();
    assert_eq!(d.interface, "eth0");
    assert_eq!(d.pci_address, "0000:01:00.0");
    assert_eq!(d.speed.as_deref(), Some("10G"));
    assert!(get_device_info("eth9", &None).is_err());
}

#[test]
fn enumeration_filters_non_network_classes() {
    // A device whose class does not carry the network-controller prefix
    // never appears, whatever driver holds it.
    let store = Mappings::new();
    let entries = vec![
        entry("0000:01:00.0", "0x020000\n", Some("ixgbe"), &["eth0"]),
        entry("0000:02:00.0", "0x010601\n", Some("ahci"), &[]),
        entry("0000:03:00.0", "0x030000\n", Some("vfio-pci"), &[]),
    ];
    let devices = list_network_devices(&entries, &store);
    assert_eq!(devices.len(), 1);
    assert_eq!(devices[0].pci_address, "0000:01:00.0");
}

#[test]
fn enumeration_sorts_by_interface_and_dedups() {
    let store = Mappings::new();
    let entries = vec![
        entry("0000:02:00.0", "0x020000\n", Some("i40e"), &["ethb"]),
        entry("0000:01:00.0", "0x020000\n", Some("ixgbe"), &["etha"]),
        entry("0000:01:00.0", "0x020000\n", Some("ixgbe"), &["etha"]),
        entry("0000:03:00.0", "0x020000\n", Some("vfio-pci"), &[]),
    ];
    let devices = list_network_devices(&entries, &store);
    assert_eq!(devices.len(), 3);
    // Bracketed names sort before plain ones in code-point order.
    assert_eq!(devices[0].interface, "(0000:03:00.0)");
    assert_eq!(devices[1].interface, "etha");
    assert_eq!(devices[2].interface, "ethb");
}

#[test]
fn enumeration_skips_malformed_entry_names() {
    let store = Mappings::new();
    let entries = vec![
        entry("bind", "0x020000\n", None, &[]),
        entry("0000:01:00.0", "0x020000\n", Some("ixgbe"), &["eth0"]),
    ];
    let devices = list_network_devices(&entries, &store);
    assert_eq!(devices.len(), 1);
    assert_eq!(devices[0].interface, "eth0");
}

#[test]
fn vendor_device_pair_string() {
    let store = Mappings::new();
    let e = entry("0000:01:00.0", "0x020000\n", Some("ixgbe"), &["eth0"]);
    let d = get_device_info_by_pci(&e, &store).unwrap();
    assert_eq!(d.vendor_device(), "0x8086:0x1572");
    assert!(!d.is_vfio_bound());
}

#[test]
fn status_words() {
    assert_eq!(status_to_string(&DeviceStatus::Vfio), "vfio");
    assert_eq!(status_to_string(&DeviceStatus::Kernel), "kernel");
    assert_eq!(status_to_string(&DeviceStatus::Unbound), "unbound");
}

#[test]
fn device_descriptions() {
    let base = NetworkDevice {
        interface: "eth0".to_string(),
        pci_address: "0000:01:00.0".to_string(),
        driver: None,
        iommu_group: None,
        vendor_id: "0x15b3".to_string(),
        device_id: "0x101f".to_string(),
        speed: None,
        max_speed: None,
        status: DeviceStatus::Unbound,
    };
    assert_eq!(get_device_description(&base), "Mellanox ConnectX-4 Lx");
    let mut d = base.clone();
    d.device_id = "0x1017".to_string();
    assert_eq!(get_device_description(&d), "Mellanox ConnectX-5");
    d.vendor_id = "0x1924".to_string();
    assert_eq!(get_device_description(&d), "Solarflare NIC");
    d.vendor_id = "0xabcd".to_string();
    d.max_speed = Some("25G".to_string());
    assert_eq!(get_device_description(&d), "25G NIC");
    d.max_speed = None;
    assert_eq!(get_device_description(&d), "Network Card");
}
