use vfio_tool::device::{DeviceStatus, NetworkDevice};
use vfio_tool::engine::{
    attach_result, plan_bind, rediscovered_mappings, reprobe_writes, unbind_decision,
    vfio_network_addresses, AddrObservation, BindBatch, BindPlan, PseudoWrite, UnbindBatch,
    UnbindDecision, WriteOutcome, SETTLE_SECONDS,
};
use vfio_tool::device::{PciDeviceEntry, SpeedReading};
use vfio_tool::error::VfioError;
use vfio_tool::groups::{get_iommu_group_devices, group_advisory};
use vfio_tool::mapping::Mappings;
use vfio_tool::resolve::{resolve_bind_target, resolve_unbind_target, BindTarget, UnbindTarget};

fn dev(interface: &str, addr: &str, driver: Option<&str>, status: DeviceStatus) -> NetworkDevice {
    NetworkDevice {
        interface: interface.to_string(),
        pci_address: addr.to_string(),
        driver: driver.map(|d| d.to_string()),
        iommu_group: Some(7),
        vendor_id: "0x8086".to_string(),
        device_id: "0x1572".to_string(),
        speed: None,
        max_speed: Some("10G".to_string()),
        status,
    }
}

fn entry(name: &str, class: &str, driver: Option<&str>, net: &[&str]) -> PciDeviceEntry {
    PciDeviceEntry {
        name: name.to_string(),
        class: Some(class.to_string()),
        driver: driver.map(|d| d.to_string()),
        iommu_group_link: Some("7".to_string()),
        vendor: Some("0x8086\n".to_string()),
        device: Some("0x1572\n".to_string()),
        net_names: net.iter().map(|n| n.to_string()).collect(),
        speed: SpeedReading::ErrOther,
    }
}

#[test]
fn kernel_bound_device_gets_full_plan() {
    // eth0 is kernel-bound to ixgbe at 0000:01:00.0: the plan detaches the
    // driver, registers the id pair and attaches the bypass driver.
    let d = dev("eth0", "0000:01:00.0", Some("ixgbe"), DeviceStatus::Kernel);
    match plan_bind(&d) {
        BindPlan::Steps { detach, register, attach } => {
            match detach {
                Some(PseudoWrite::DetachDriver { address }) => {
                    assert_eq!(address, "0000:01:00.0");
                }
                _ => panic!("expected a detach write"),
            }
            match &register {
                PseudoWrite::RegisterId { vendor, device } => {
                    assert_eq!(vendor, "8086");
                    assert_eq!(device, "1572");
                }
                _ => panic!("expected a registration"),
            }
            assert_eq!(register.path(), "/sys/bus/pci/drivers/vfio-pci/new_id");
            assert_eq!(register.payload(), "8086 1572");
            match &attach {
                PseudoWrite::AttachBypass { address } => assert_eq!(address, "0000:01:00.0"),
                _ => panic!("expected an attach write"),
            }
            assert_eq!(attach.path(), "/sys/bus/pci/drivers/vfio-pci/bind");
            assert_eq!(attach.payload(), "0000:01:00.0");
        }
        BindPlan::AlreadyBound => panic!("a kernel-bound device needs work"),
    }
}

#[test]
fn bind_is_idempotent_without_writes() {
    // A device already held by the bypass driver gets a plan with no
    // pseudo-file write at all.
    let d = dev("eth0", "0000:01:00.0", Some("vfio-pci"), DeviceStatus::Vfio);
    assert!(matches!(plan_bind(&d), BindPlan::AlreadyBound));
}

#[test]
fn unbound_device_plan_has_no_detach() {
    let d = dev("eth0", "0000:01:00.0", None, DeviceStatus::Unbound);
    match plan_bind(&d) {
        BindPlan::Steps { detach, .. } => assert!(detach.is_none()),
        BindPlan::AlreadyBound => panic!("an unbound device needs work"),
    }
}

#[test]
fn invisible_device_resolves_through_store_and_binds_as_noop() {
    // The device is already bypass-bound and its name is gone from the
    // live namespace: resolution falls through to the store, and the
    // observed state makes the bind a success with zero writes.
    let mut store = Mappings::new();
    store.insert("eth0".to_string(), "0000:01:00.0".to_string());
    let addr = match resolve_bind_target("eth0", &None, &store) {
        Ok(BindTarget::Address(a)) => a,
        _ => panic!("expected the stored address"),
    };
    assert_eq!(addr, "0000:01:00.0");
    let observed = dev("(0000:01:00.0)", &addr, Some("vfio-pci"), DeviceStatus::Vfio);
    assert!(matches!(plan_bind(&observed), BindPlan::AlreadyBound));
}

#[test]
fn busy_attach_rechecks_current_driver() {
    assert!(attach_result("0000:01:00.0", WriteOutcome::Done, false).is_ok());
    assert!(attach_result("0000:01:00.0", WriteOutcome::Busy, true).is_ok());
    match attach_result("0000:01:00.0", WriteOutcome::Busy, false) {
        Err(VfioError::DeviceInUse(a)) => assert_eq!(a, "0000:01:00.0"),
        _ => panic!("busy with another driver is a hard failure"),
    }
    match attach_result("0000:01:00.0", WriteOutcome::Failed, false) {
        Err(VfioError::Io(m)) => assert_eq!(m, "Failed to bind 0000:01:00.0 to vfio-pci"),
        _ => panic!("a failed write is a hard failure"),
    }
}

#[test]
fn batch_fails_fast_but_keeps_earlier_mappings() {
    // In the batch [a, b, c], b fails hard: a's mapping stays committed and
    // c is never offered for processing.
    let mut batch = BindBatch::new(vec![
        "a".to_string(),
        "b".to_string(),
        "c".to_string(),
    ]);
    assert_eq!(batch.current().as_deref(), Some("a"));
    batch.record_success(Some(&"a".to_string()), &"0000:01:00.0".to_string());
    assert_eq!(batch.current().as_deref(), Some("b"));
    batch.record_failure(VfioError::DeviceInUse("0000:02:00.0".to_string()));
    assert!(batch.current().is_none());
    assert!(batch.is_done());
    assert!(matches!(batch.failure(), Some(VfioError::DeviceInUse(_))));
    assert_eq!(batch.discovered().get("a").unwrap(), "0000:01:00.0");
}

#[test]
fn batch_completes_in_order() {
    let mut batch = BindBatch::new(vec!["a".to_string(), "b".to_string()]);
    batch.record_success(Some(&"a".to_string()), &"0000:01:00.0".to_string());
    batch.record_success(None, &"0000:02:00.0".to_string());
    assert!(batch.current().is_none());
    assert!(batch.failure().is_none());
    // The address-only item committed no name.
    assert_eq!(batch.discovered().len(), 1);
}

#[test]
fn unbind_raw_address_with_empty_store() {
    // A syntactic address with an empty store and no live interface is
    // operated on directly: the bypass driver is detached.
    let store = Mappings::new();
    let target = match resolve_unbind_target("0000:01:00.0", &None, &store) {
        Ok(t @ UnbindTarget::DirectAddress(_)) => t,
        _ => panic!("expected the raw address"),
    };
    let obs = AddrObservation { exists: true, driver: Some("vfio-pci".to_string()) };
    match unbind_decision(&target, &obs) {
        Ok(UnbindDecision::Detach(w)) => {
            assert_eq!(w.path(), "/sys/bus/pci/devices/0000:01:00.0/driver/unbind");
            assert_eq!(w.payload(), "0000:01:00.0");
        }
        _ => panic!("expected a detach"),
    }
}

#[test]
fn unbind_is_noop_when_not_bypass_bound() {
    // A device that is not bypass-bound gets no detach write and the
    // operation succeeds.
    let store = Mappings::new();
    let target = resolve_unbind_target("0000:01:00.0", &None, &store).unwrap();
    let obs = AddrObservation { exists: true, driver: Some("ixgbe".to_string()) };
    assert!(matches!(unbind_decision(&target, &obs), Ok(UnbindDecision::NoOpNotBound)));
    let gone = AddrObservation { exists: false, driver: None };
    assert!(matches!(unbind_decision(&target, &gone), Ok(UnbindDecision::NoOpAbsent)));
}

#[test]
fn unbind_live_device_by_name() {
    let store = Mappings::new();
    let live = Some(dev("eth0", "0000:01:00.0", Some("vfio-pci"), DeviceStatus::Vfio));
    match resolve_unbind_target("eth0", &live, &store) {
        Ok(UnbindTarget::LiveDevice(d)) => assert_eq!(d.pci_address, "0000:01:00.0"),
        _ => panic!("expected the live record"),
    }
}

#[test]
fn unbind_stored_address_must_exist() {
    let mut store = Mappings::new();
    store.insert("eth0".to_string(), "0000:01:00.0".to_string());
    let target = match resolve_unbind_target("eth0", &None, &store) {
        Ok(t @ UnbindTarget::StoredAddress(_)) => t,
        _ => panic!("expected the stored address"),
    };
    let gone = AddrObservation { exists: false, driver: None };
    match unbind_decision(&target, &gone) {
        Err(VfioError::DeviceNotFound(a)) => assert_eq!(a, "0000:01:00.0"),
        _ => panic!("a vanished stored address is an error"),
    }
}

#[test]
fn reset_unbinds_every_bypass_network_device() {
    // Three bypass-bound network devices: all three are found, detached,
    // override-cleared and reprobed; the names that reappear are merged
    // into the store.
    let scan = vec![
        entry("0000:01:00.0", "0x020000\n", Some("vfio-pci"), &[]),
        entry("0000:02:00.0", "0x020000\n", Some("vfio-pci"), &[]),
        entry("module", "0x020000\n", None, &[]),
        entry("0000:03:00.0", "0x020000\n", Some("vfio-pci"), &[]),
        entry("0000:04:00.0", "0x010601\n", Some("vfio-pci"), &[]),
    ];
    let addrs = vfio_network_addresses(&scan);
    assert_eq!(
        addrs,
        vec![
            "0000:01:00.0".to_string(),
            "0000:02:00.0".to_string(),
            "0000:03:00.0".to_string()
        ]
    );
    let mut batch = UnbindBatch::new(addrs.clone());
    while let Some(ident) = batch.current() {
        let target = UnbindTarget::DirectAddress(ident.clone());
        let obs = AddrObservation { exists: true, driver: Some("vfio-pci".to_string()) };
        match unbind_decision(&target, &obs) {
            Ok(UnbindDecision::Detach(w)) => {
                assert_eq!(w.payload(), ident);
                batch.record_done(&ident);
            }
            _ => panic!("every device is bypass-bound here"),
        }
    }
    assert_eq!(batch.addresses().len(), 3);
    let writes = reprobe_writes(batch.addresses());
    assert_eq!(writes.len(), 6);
    assert_eq!(writes[0].path(), "/sys/bus/pci/devices/0000:01:00.0/driver_override");
    assert_eq!(writes[0].payload(), "\n");
    assert_eq!(writes[1].path(), "/sys/bus/pci/drivers_probe");
    assert_eq!(writes[1].payload(), "0000:01:00.0");
    assert_eq!(writes[5].payload(), "0000:03:00.0");
    assert_eq!(SETTLE_SECONDS, 2);
    // After the settle delay the interfaces reappear under fresh names.
    let listings = vec![
        vec!["enp1s0".to_string()],
        vec!["enp2s0".to_string()],
        vec!["enp3s0".to_string()],
    ];
    let found = rediscovered_mappings(batch.addresses(), &listings);
    let mut store = Mappings::new();
    store.insert("stale".to_string(), "0000:09:00.0".to_string());
    store.merge_from(&found);
    assert_eq!(store.get("enp1s0").unwrap(), "0000:01:00.0");
    assert_eq!(store.get("enp2s0").unwrap(), "0000:02:00.0");
    assert_eq!(store.get("enp3s0").unwrap(), "0000:03:00.0");
    assert_eq!(store.get("stale").unwrap(), "0000:09:00.0");
}

#[test]
fn unbind_batch_aborts_on_failure() {
    let mut batch = UnbindBatch::new(vec!["a".to_string(), "b".to_string()]);
    batch.record_done(&"0000:01:00.0".to_string());
    batch.record_failure(VfioError::Io("boom".to_string()));
    assert!(batch.current().is_none());
    assert_eq!(batch.addresses().len(), 1);
}

#[test]
fn shared_group_is_advisory_only() {
    // 0000:02:00.0 shares isolation group 7 with 0000:02:00.1: the bind
    // still proceeds, and the advisory names the co-member.
    let members = vec!["0000:02:00.0".to_string(), "0000:02:00.1".to_string()];
    let advisory = group_advisory("0000:02:00.0", &members).unwrap();
    assert_eq!(advisory, vec!["0000:02:00.1".to_string()]);
    // The operation on the device itself is unaffected.
    let d = dev("eth2", "0000:02:00.0", Some("ixgbe"), DeviceStatus::Kernel);
    assert!(matches!(plan_bind(&d), BindPlan::Steps { .. }));
}

#[test]
fn lone_device_has_no_advisory() {
    let members = vec!["0000:01:00.0".to_string()];
    assert!(group_advisory("0000:01:00.0", &members).is_none());
}

#[test]
fn group_listing_requires_existing_group() {
    let listing = Some(vec!["0000:02:00.0".to_string(), "0000:02:00.1".to_string()]);
    assert_eq!(get_iommu_group_devices(7, &listing).unwrap().len(), 2);
    match get_iommu_group_devices(9, &None) {
        Err(VfioError::GroupNotFound(g)) => assert_eq!(g, 9),
        _ => panic!("a missing group is an error"),
    }
}
