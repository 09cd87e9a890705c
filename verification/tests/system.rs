use vfio_tool::checks::{
    check_interfaces, check_interfaces_with_mode, ensure_outcome, CheckOutcome, EnsureItem,
    EnsureOutcome,
};
use vfio_tool::config::Config;
use vfio_tool::device::{DeviceStatus, NetworkDevice};
use vfio_tool::error::VfioError;
use vfio_tool::frameworks::{
    get_available_devices, get_capable_devices, get_rdma_device_name, get_reference_string,
    is_device_capable, is_device_ready, Framework,
};
use vfio_tool::grub::{detect_cpu_vendor, get_required_iommu_params, is_iommu_enabled, CpuVendor};
use vfio_tool::iommu::{
    check_system, count_vfio_devices, get_system_status, is_vfio_module_loaded, SystemIssue,
};
use vfio_tool::systemd::{generate_bash_script, generate_service_file};

fn dev(
    interface: &str,
    vendor: &str,
    device: &str,
    driver: Option<&str>,
    status: DeviceStatus,
) -> NetworkDevice {
    NetworkDevice {
        interface: interface.to_string(),
        pci_address: "0000:01:00.0".to_string(),
        driver: driver.map(|d| d.to_string()),
        iommu_group: None,
        vendor_id: vendor.to_string(),
        device_id: device.to_string(),
        speed: None,
        max_speed: None,
        status,
    }
}

#[test]
fn cpu_vendor_detection() {
    assert_eq!(detect_cpu_vendor("model name: x\nvendor_id: GenuineIntel\n"), CpuVendor::Intel);
    assert_eq!(detect_cpu_vendor("vendor_id: AuthenticAMD\n"), CpuVendor::AMD);
    assert_eq!(detect_cpu_vendor("vendor_id: SomethingElse\n"), CpuVendor::Unknown);
}

#[test]
fn iommu_enabled_needs_both_parameters() {
    assert!(is_iommu_enabled("quiet intel_iommu=on iommu=pt"));
    assert!(is_iommu_enabled("amd_iommu=on iommu=pt"));
    assert!(!is_iommu_enabled("intel_iommu=on"));
    assert!(!is_iommu_enabled("iommu=pt"));
    assert!(!is_iommu_enabled("quiet splash"));
}

#[test]
fn required_params_by_vendor() {
    assert_eq!(
        get_required_iommu_params(CpuVendor::Intel).unwrap(),
        vec!["intel_iommu=on".to_string(), "iommu=pt".to_string()]
    );
    assert_eq!(
        get_required_iommu_params(CpuVendor::AMD).unwrap(),
        vec!["amd_iommu=on".to_string(), "iommu=pt".to_string()]
    );
    assert!(matches!(
        get_required_iommu_params(CpuVendor::Unknown),
        Err(VfioError::GrubError(_))
    ));
}

#[test]
fn grub_patch_appends_to_quoted_value() {
    let content = "GRUB_DEFAULT=0\nGRUB_CMDLINE_LINUX_DEFAULT=\"quiet splash\"\nGRUB_CMDLINE_LINUX=\"\"\n";
    let params = vec!["intel_iommu=on".to_string(), "iommu=pt".to_string()];
    let patched = vfio_tool::grub::add_iommu_params(content, &params);
    assert_eq!(
        patched,
        "GRUB_DEFAULT=0\nGRUB_CMDLINE_LINUX_DEFAULT=\"quiet splash intel_iommu=on iommu=pt\"\nGRUB_CMDLINE_LINUX=\"\"\n"
    );
}

#[test]
fn grub_patch_fills_empty_value() {
    let content = "GRUB_CMDLINE_LINUX_DEFAULT=\"\"\n";
    let params = vec!["amd_iommu=on".to_string(), "iommu=pt".to_string()];
    let patched = vfio_tool::grub::add_iommu_params(content, &params);
    assert_eq!(patched, "GRUB_CMDLINE_LINUX_DEFAULT=\"amd_iommu=on iommu=pt\"\n");
}

#[test]
fn grub_patch_rewrites_only_the_first_match() {
    let content = "  GRUB_CMDLINE_LINUX_DEFAULT=\"a\"\nGRUB_CMDLINE_LINUX_DEFAULT=\"b\"";
    let params = vec!["iommu=pt".to_string()];
    let patched = vfio_tool::grub::add_iommu_params(content, &params);
    assert_eq!(
        patched,
        "GRUB_CMDLINE_LINUX_DEFAULT=\"a iommu=pt\"\nGRUB_CMDLINE_LINUX_DEFAULT=\"b\"\n"
    );
}

#[test]
fn grub_patch_leaves_unrelated_text_alone() {
    let content = "# nothing to see\nGRUB_TIMEOUT=5";
    let params = vec!["iommu=pt".to_string()];
    let patched = vfio_tool::grub::add_iommu_params(content, &params);
    assert_eq!(patched, "# nothing to see\nGRUB_TIMEOUT=5\n");
}

#[test]
fn module_detection_goes_by_line_starts() {
    assert!(is_vfio_module_loaded("vfio_pci 16384 0 - Live\n"));
    assert!(is_vfio_module_loaded("ahci 1 0\nvfio_pci_core 2 1\n"));
    assert!(!is_vfio_module_loaded("ahci 1 0\nsomething_vfio_pci 2 1\n"));
    assert!(!is_vfio_module_loaded(""));
}

#[test]
fn vfio_device_count_takes_addresses_only() {
    let names = vec![
        "0000:01:00.0".to_string(),
        "bind".to_string(),
        "0000:02:00.0".to_string(),
        "module".to_string(),
    ];
    assert_eq!(count_vfio_devices(&names), 2);
}

#[test]
fn system_status_carries_observations() {
    let s = get_system_status(true, false, 12, 3, CpuVendor::Intel);
    assert!(s.iommu_enabled);
    assert!(!s.vfio_module_loaded);
    assert_eq!(s.iommu_groups_count, 12);
    assert_eq!(s.vfio_devices_count, 3);
    assert_eq!(s.cpu_vendor, CpuVendor::Intel);
}

#[test]
fn system_issues_in_fixed_order() {
    let issues = check_system(false, false, 0);
    assert_eq!(
        issues,
        vec![
            SystemIssue::IommuNotEnabled,
            SystemIssue::VfioModuleNotLoaded,
            SystemIssue::NoIommuGroups
        ]
    );
    assert!(check_system(true, true, 5).is_empty());
    assert_eq!(check_system(true, false, 5), vec![SystemIssue::VfioModuleNotLoaded]);
}

#[test]
fn issue_texts() {
    assert_eq!(
        SystemIssue::IommuNotEnabled.description(),
        "IOMMU is not enabled in kernel parameters"
    );
    assert_eq!(SystemIssue::IommuNotEnabled.fix_command(), "vfio-tool setup-grub");
    assert_eq!(SystemIssue::VfioModuleNotLoaded.fix_command(), "sudo modprobe vfio-pci");
    assert_eq!(
        SystemIssue::NoIommuGroups.fix_command(),
        "Enable IOMMU in BIOS/UEFI (VT-d for Intel, AMD-Vi for AMD)"
    );
}

#[test]
fn framework_names_round_trip() {
    assert_eq!(Framework::from_str("dpdk"), Some(Framework::Dpdk));
    assert_eq!(Framework::from_str("DPDK"), Some(Framework::Dpdk));
    assert_eq!(Framework::from_str("TcpDirect"), Some(Framework::TcpDirect));
    assert_eq!(Framework::from_str("xdp"), Some(Framework::Xdp));
    assert_eq!(Framework::from_str("nope"), None);
    assert_eq!(Framework::Dpdk.name(), "DPDK");
    assert_eq!(Framework::EfVi.name(), "ef_vi");
    assert!(Framework::Dpdk.requires_vfio());
    assert!(!Framework::Dpdk.requires_kernel());
    assert!(Framework::Rdma.requires_kernel());
    assert!(Framework::Xdp.requires_kernel());
}

#[test]
fn capability_rules() {
    let mlx = dev("eth0", "0x15b3", "0x101f", Some("mlx5_core"), DeviceStatus::Kernel);
    let sfc = dev("eth1", "0x1924", "0x0903", Some("sfc"), DeviceStatus::Kernel);
    let intel = dev("eth2", "0x8086", "0x1572", Some("i40e"), DeviceStatus::Kernel);
    assert!(is_device_capable(&mlx, Framework::Dpdk));
    assert!(is_device_capable(&mlx, Framework::Rdma));
    assert!(!is_device_capable(&intel, Framework::Rdma));
    assert!(is_device_capable(&sfc, Framework::TcpDirect));
    assert!(!is_device_capable(&intel, Framework::TcpDirect));
    assert!(is_device_capable(&intel, Framework::Xdp));
    assert!(!is_device_capable(&dev("e", "0x8086", "0x1572", None, DeviceStatus::Unbound), Framework::Xdp));
}

#[test]
fn readiness_follows_binding_state() {
    let kernel = dev("eth0", "0x8086", "0x1572", Some("i40e"), DeviceStatus::Kernel);
    let vfio = dev("eth0", "0x8086", "0x1572", Some("vfio-pci"), DeviceStatus::Vfio);
    assert!(!is_device_ready(&kernel, Framework::Dpdk));
    assert!(is_device_ready(&vfio, Framework::Dpdk));
    assert!(is_device_ready(&kernel, Framework::Xdp));
    assert!(!is_device_ready(&vfio, Framework::Xdp));
}

#[test]
fn reference_strings_by_framework() {
    let vfio = dev("eth0", "0x8086", "0x1572", Some("vfio-pci"), DeviceStatus::Vfio);
    assert_eq!(get_reference_string(&vfio, Framework::Dpdk, &None).unwrap(), "0000:01:00.0");
    let kernel = dev("eth0", "0x15b3", "0x101f", Some("mlx5_core"), DeviceStatus::Kernel);
    assert_eq!(
        get_reference_string(&kernel, Framework::Xdp, &None).unwrap(),
        "eth0"
    );
    assert_eq!(
        get_reference_string(&kernel, Framework::Rdma, &Some("mlx5_0".to_string())).unwrap(),
        "mlx5_0"
    );
    assert!(get_reference_string(&kernel, Framework::Rdma, &None).is_err());
}

#[test]
fn rdma_name_lookup() {
    let scan = Some(vec![
        ("mlx5_0".to_string(), Some("0000:01:00.0".to_string())),
        ("mlx5_1".to_string(), Some("0000:02:00.0".to_string())),
    ]);
    assert_eq!(get_rdma_device_name("0000:02:00.0", &scan).unwrap(), "mlx5_1");
    assert!(matches!(
        get_rdma_device_name("0000:03:00.0", &scan),
        Err(VfioError::DeviceNotFound(_))
    ));
    assert!(matches!(get_rdma_device_name("0000:01:00.0", &None), Err(VfioError::Io(_))));
}

#[test]
fn capable_and_available_listings() {
    let devices = vec![
        dev("eth0", "0x15b3", "0x101f", Some("mlx5_core"), DeviceStatus::Kernel),
        dev("eth1", "0x8086", "0x1572", Some("i40e"), DeviceStatus::Kernel),
        dev("eth2", "0x15b3", "0x1017", Some("vfio-pci"), DeviceStatus::Vfio),
    ];
    let capable = get_capable_devices(Framework::Rdma, &devices, &None);
    assert_eq!(capable.len(), 2);
    assert_eq!(capable[0].device.interface, "eth0");
    assert!(capable[0].is_ready);
    assert!(!capable[1].is_ready);
    // Not ready, and no RDMA scan: the reference falls back to the address.
    assert_eq!(capable[1].reference_string, "0000:01:00.0");
    let available = get_available_devices(Framework::Rdma, &devices, &None);
    assert_eq!(available.len(), 1);
    assert_eq!(available[0].device.interface, "eth0");
}

#[test]
fn mode_checks_classify_outcomes() {
    let ok = vec![("eth0".to_string(), Some(DeviceStatus::Vfio))];
    let wrong = vec![("eth1".to_string(), Some(DeviceStatus::Kernel))];
    let missing: Vec<(String, Option<DeviceStatus>)> = vec![("eth2".to_string(), None)];
    let none: Vec<(String, Option<DeviceStatus>)> = Vec::new();
    assert_eq!(check_interfaces_with_mode(&ok, &none, &none), CheckOutcome::AllOk);
    assert_eq!(check_interfaces_with_mode(&wrong, &none, &none), CheckOutcome::WrongMode);
    assert_eq!(check_interfaces_with_mode(&wrong, &none, &missing), CheckOutcome::NotFound);
    assert_eq!(
        check_interfaces_with_mode(&none, &vec![("e".to_string(), Some(DeviceStatus::Kernel))], &none),
        CheckOutcome::AllOk
    );
    assert_eq!(check_interfaces(&ok), CheckOutcome::AllOk);
    assert_eq!(check_interfaces(&wrong), CheckOutcome::WrongMode);
    assert_eq!(check_interfaces(&missing), CheckOutcome::NotFound);
}

#[test]
fn ensure_outcome_precedence() {
    assert_eq!(
        ensure_outcome(&vec![EnsureItem::AlreadyBound, EnsureItem::Bound]),
        EnsureOutcome::AllOk
    );
    assert_eq!(
        ensure_outcome(&vec![EnsureItem::Bound, EnsureItem::BindFailed]),
        EnsureOutcome::BindFailed
    );
    assert_eq!(
        ensure_outcome(&vec![EnsureItem::BindFailed, EnsureItem::NotFound]),
        EnsureOutcome::NotFound
    );
}

#[test]
fn error_messages() {
    assert_eq!(
        VfioError::DeviceNotFound("eth0".to_string()).message(),
        "Device not found: eth0"
    );
    assert_eq!(VfioError::GroupNotFound(7).message(), "IOMMU group not found: 7");
    assert_eq!(
        VfioError::IommuNotEnabled.message(),
        "IOMMU not enabled. Run 'vfio-tool setup-grub' to enable it."
    );
    assert_eq!(
        VfioError::VfioModuleNotLoaded.message(),
        "VFIO module not loaded. Run 'sudo modprobe vfio-pci'"
    );
    assert_eq!(
        VfioError::AlreadyBound("0000:01:00.0".to_string(), "ixgbe".to_string()).message(),
        "Device 0000:01:00.0 is already bound to ixgbe"
    );
    assert_eq!(
        VfioError::DeviceInUse("0000:01:00.0".to_string()).message(),
        "Device 0000:01:00.0 is in use and cannot be unbound"
    );
    assert_eq!(
        VfioError::MultiDeviceGroup(7).message(),
        "IOMMU group 7 contains multiple devices. All must be bound together."
    );
    assert_eq!(
        VfioError::PermissionDenied.message(),
        "Permission denied. Try running with sudo."
    );
    assert_eq!(VfioError::ConfigNotFound.message(), "Configuration file not found");
    assert_eq!(
        VfioError::InvalidConfig("bad".to_string()).message(),
        "Invalid configuration: bad"
    );
    assert_eq!(
        VfioError::GrubError("oops".to_string()).message(),
        "GRUB configuration error: oops"
    );
    assert_eq!(VfioError::SystemdError("x".to_string()).message(), "Systemd error: x");
    assert_eq!(VfioError::Io("fail".to_string()).message(), "IO error: fail");
}

#[test]
fn service_file_text() {
    let text = generate_service_file();
    assert!(text.starts_with("[Unit]\nDescription=VFIO Device Binding for Kernel Bypass\n"));
    assert!(text.contains("ExecStart=/usr/local/bin/vfio-tool apply\n"));
    assert!(text.ends_with("[Install]\nWantedBy=multi-user.target\n"));
}

#[test]
fn bash_script_reflects_configuration() {
    let mut cfg = Config::default();
    cfg.devices.vfio.push("eth0".to_string());
    let script = generate_bash_script(&cfg).unwrap();
    assert!(script.starts_with("#!/bin/bash\n"));
    assert!(script.contains("modprobe -q vfio-pci || true\n"));
    assert!(script.contains("echo \"Binding eth0...\"\n"));
    assert!(script.contains("if [ -e /sys/class/net/eth0/device ]; then"));
    assert!(script.contains("chmod 666 /dev/vfio/vfio 2>/dev/null || true\n"));
    assert!(script.ends_with("echo \"\u{2713} VFIO binding complete\"\necho\n"));

    let mut bare = Config::default();
    bare.options.auto_load_module = false;
    bare.options.set_permissions = false;
    let plain = generate_bash_script(&bare).unwrap();
    assert!(!plain.contains("modprobe"));
    assert!(!plain.contains("chmod"));
    assert!(!plain.contains("echo \"Binding"));
}
