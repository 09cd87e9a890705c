//! Device records: value snapshots of one PCI network device, rebuilt fresh
//! on every resolution from observations of the device tree.

use vstd::prelude::*;
use crate::addr::{is_pci_address, spec_is_pci_address};
use crate::error::VfioError;
use crate::mapping::{first_name_for, Mappings};
use crate::strings::{
    lemma_lex_le_total, lemma_lex_le_trans, lex_le, spec_lex_le, spec_starts_with, spec_trim,
    starts_with, str_eq, trim_ws,
};
use crate::num::{spec_parse_i32, spec_parse_u32, spec_u32_string, parse_i32, parse_u32, u32_to_string};

verus! {

/// Which driver family owns the device. Always derived from the driver
/// symlink at observation time, never stored.
#[derive(Debug, Clone, Copy, PartialEq, Eq, Structural)]
pub enum DeviceStatus {
    /// Attached to a non-bypass kernel driver.
    Kernel,
    /// Attached to the vfio-pci bypass driver.
    Vfio,
    /// No driver attached.
    Unbound,
}

/// One network device, keyed by its stable PCI address. The interface name
/// is ephemeral: present only while a kernel driver owns the device or while
/// a stored mapping still remembers it; otherwise it is the address in
/// brackets.
#[derive(Debug, Clone)]
pub struct NetworkDevice {
    pub interface: String,
    pub pci_address: String,
    pub driver: Option<String>,
    pub iommu_group: Option<u32>,
    pub vendor_id: String,
    pub device_id: String,
    pub speed: Option<String>,
    pub max_speed: Option<String>,
    pub status: DeviceStatus,
}

/// The status derived from a driver symlink: the bypass driver name means
/// `Vfio`, any other name `Kernel`, no symlink `Unbound`.
pub open spec fn spec_status_of(driver: Option<Seq<char>>) -> DeviceStatus {
    match driver {
        Some(d) => if d == "vfio-pci"@ {
            DeviceStatus::Vfio
        } else {
            DeviceStatus::Kernel
        },
        None => DeviceStatus::Unbound,
    }
}

/// Compute the status from an observed driver name.
pub fn derive_status(driver: &Option<String>) -> (s: DeviceStatus)
    ensures
        s == spec_status_of(driver.deep_view()),
{
    match driver {
        Some(d) => {
            if str_eq(d.as_str(), "vfio-pci") {
                DeviceStatus::Vfio
            } else {
                DeviceStatus::Kernel
            }
        },
        None => DeviceStatus::Unbound,
    }
}

impl NetworkDevice {
    /// The `vendor:device` id pair as one string.
    pub fn vendor_device(&self) -> (r: String)
        ensures
            r@ == self.vendor_id@ + ":"@ + self.device_id@,
    {
        let mut s = self.vendor_id.clone();
        s.append(":");
        s.append(self.device_id.as_str());
        s
    }

    /// Whether the bypass driver owns the device.
    pub fn is_vfio_bound(&self) -> (r: bool)
        ensures
            r == (self.status == DeviceStatus::Vfio),
    {
        self.status == DeviceStatus::Vfio
    }

    /// A copy of the record.
    pub fn snapshot(&self) -> (r: NetworkDevice)
        ensures
            r == *self,
    {
        NetworkDevice {
            interface: self.interface.clone(),
            pci_address: self.pci_address.clone(),
            driver: clone_opt_string(&self.driver),
            iommu_group: match self.iommu_group {
                Some(g) => Some(g),
                None => None,
            },
            vendor_id: self.vendor_id.clone(),
            device_id: self.device_id.clone(),
            speed: clone_opt_string(&self.speed),
            max_speed: clone_opt_string(&self.max_speed),
            status: self.status,
        }
    }
}

/// A copy of an optional string.
pub fn clone_opt_string(o: &Option<String>) -> (r: Option<String>)
    ensures
        r == *o,
{
    match o {
        Some(s) => Some(s.clone()),
        None => None,
    }
}

/// An interface name rendered from a bare address: the address in brackets.
pub open spec fn spec_bracketed(addr: Seq<char>) -> Seq<char> {
    "("@ + addr + ")"@
}

/// Render the placeholder name for a device with no resolvable interface.
pub fn bracketed_address(addr: &str) -> (r: String)
    ensures
        r@ == spec_bracketed(addr@),
{
    let mut s = String::new();
    s.append("(");
    s.append(addr);
    s.append(")");
    proof {
        assert(s@ =~= spec_bracketed(addr@));
    }
    s
}

/// The isolation-group id read from a group symlink: the target's basename
/// parsed as a decimal number, or nothing when the symlink is absent or the
/// basename is not a number.
pub open spec fn spec_iommu_group_of(link: Option<Seq<char>>) -> Option<u32> {
    match link {
        Some(s) => spec_parse_u32(s),
        None => None,
    }
}

/// Parse the observed group symlink basename into a group id.
pub fn get_iommu_group(link: &Option<String>) -> (r: Option<u32>)
    ensures
        r == spec_iommu_group_of(link.deep_view()),
{
    match link {
        Some(s) => parse_u32(s.as_str()),
        None => None,
    }
}

/// What a read of an interface's `speed` pseudo-file produced.
#[derive(Debug, Clone)]
pub enum SpeedReading {
    /// The raw file contents.
    Content(String),
    /// The read failed with an invalid-argument error: the link is
    /// administratively down.
    ErrInvalidInput,
    /// The read failed for any other reason.
    ErrOther,
}

/// The link-speed label for a reading: a negative number means no carrier,
/// 1000 and above is rendered in gigabits, smaller values in megabits;
/// unparseable contents or unexpected read failures give `?`, and an
/// invalid-argument failure means the link is down.
pub open spec fn spec_link_speed(r: SpeedReading) -> Seq<char> {
    match r {
        SpeedReading::Content(s) => match spec_parse_i32(spec_trim(s@)) {
            Some(v) => if v < 0 {
                "no link"@
            } else if v >= 1000 {
                spec_u32_string(v as int / 1000) + "G"@
            } else {
                spec_u32_string(v as int) + "M"@
            },
            None => "?"@,
        },
        SpeedReading::ErrInvalidInput => "down"@,
        SpeedReading::ErrOther => "?"@,
    }
}

/// Classify a reading of the `speed` pseudo-file. A bypass-bound device has
/// no reading at all, which callers report as unavailable rather than down.
pub fn get_link_speed(reading: &SpeedReading) -> (r: String)
    ensures
        r@ == spec_link_speed(*reading),
{
    match reading {
        SpeedReading::Content(s) => {
            let trimmed = trim_ws(s.as_str());
            match parse_i32(trimmed.as_str()) {
                Some(v) => {
                    if v < 0 {
                        let mut out = String::new();
                        out.append("no link");
                        proof {
                            assert(out@ =~= spec_link_speed(*reading));
                        }
                        out
                    } else if v >= 1000 {
                        let mut out = u32_to_string((v / 1000) as u32);
                        out.append("G");
                        out
                    } else {
                        let mut out = u32_to_string(v as u32);
                        out.append("M");
                        out
                    }
                },
                None => {
                    let mut out = String::new();
                    out.append("?");
                    proof {
                        assert(out@ =~= spec_link_speed(*reading));
                    }
                    out
                },
            }
        },
        SpeedReading::ErrInvalidInput => {
            let mut out = String::new();
            out.append("down");
            proof {
                assert(out@ =~= spec_link_speed(*reading));
            }
            out
        },
        SpeedReading::ErrOther => {
            let mut out = String::new();
            out.append("?");
            proof {
                assert(out@ =~= spec_link_speed(*reading));
            }
            out
        },
    }
}

/// The nominal maximum speed of a device, looked up by its vendor and device
/// id pair in a fixed table of known network cards; an unknown pair has no
/// entry, which is not an error.
pub open spec fn spec_max_speed(v: Seq<char>, d: Seq<char>) -> Option<Seq<char>> {
    if v == "0x8086"@ {
        if d == "0x158a"@ || d == "0x158b"@ {
            Some("25G"@)
        } else if d == "0x1572"@ || d == "0x1580"@ || d == "0x1581"@ || d == "0x1585"@ || d
            == "0x1586"@ || d == "0x1589"@ {
            Some("10G"@)
        } else if d == "0x1583"@ || d == "0x1584"@ {
            Some("40G"@)
        } else if d == "0x1591"@ || d == "0x1592"@ || d == "0x1593"@ {
            Some("100G"@)
        } else if d == "0x10fb"@ || d == "0x10fc"@ {
            Some("10G"@)
        } else if d == "0x1528"@ || d == "0x1563"@ || d == "0x15ac"@ || d == "0x15ad"@ {
            Some("10G"@)
        } else if d == "0x1521"@ || d == "0x1522"@ || d == "0x1523"@ || d == "0x1524"@ {
            Some("1G"@)
        } else if d == "0x10c9"@ || d == "0x10e6"@ || d == "0x10e7"@ || d == "0x10e8"@ {
            Some("1G"@)
        } else if d == "0x150e"@ || d == "0x150f"@ || d == "0x1510"@ || d == "0x1511"@ {
            Some("1G"@)
        } else if d == "0x159b"@ {
            Some("25G"@)
        } else if d == "0x15ff"@ {
            Some("10G"@)
        } else {
            None
        }
    } else if v == "0x15b3"@ {
        if d == "0x1003"@ || d == "0x1007"@ {
            Some("40G"@)
        } else if d == "0x1013"@ || d == "0x1014"@ || d == "0x1015"@ || d == "0x1016"@ || d
            == "0x1018"@ || d == "0x101e"@ {
            Some("100G"@)
        } else if d == "0x1017"@ {
            Some("50G"@)
        } else if d == "0x1019"@ || d == "0x101a"@ || d == "0x101b"@ || d == "0x101c"@ {
            Some("40G"@)
        } else if d == "0x101d"@ || d == "0x101f"@ {
            Some("25G"@)
        } else {
            None
        }
    } else if v == "0x14e4"@ {
        if d == "0x16d7"@ || d == "0x16d8"@ {
            Some("25G"@)
        } else if d == "0x16dc"@ {
            Some("100G"@)
        } else if d == "0x16e1"@ || d == "0x16e2"@ || d == "0x16e3"@ {
            Some("50G"@)
        } else {
            None
        }
    } else if v == "0x1425"@ {
        if d == "0x5400"@ || d == "0x5401"@ {
            Some("10G"@)
        } else if d == "0x5410"@ || d == "0x5411"@ {
            Some("40G"@)
        } else if d == "0x5680"@ || d == "0x5681"@ {
            Some("100G"@)
        } else {
            None
        }
    } else if v == "0x1924"@ {
        if d == "0x0803"@ || d == "0x0813"@ {
            Some("10G"@)
        } else if d == "0x0903"@ {
            Some("40G"@)
        } else {
            None
        }
    } else if v == "0x1077"@ {
        if d == "0x8070"@ {
            Some("10G"@)
        } else if d == "0x8090"@ {
            Some("40G"@)
        } else {
            None
        }
    } else {
        None
    }
}

/// Look up the nominal maximum speed for a `vendor:device` id pair.
pub fn get_max_speed(vendor_id: &str, device_id: &str) -> (r: Option<String>)
    ensures
        match r {
            Some(s) => spec_max_speed(vendor_id@, device_id@) == Some(s@),
            None => spec_max_speed(vendor_id@, device_id@) is None,
        },
{
    if str_eq(vendor_id, "0x8086") {
        if str_eq(device_id, "0x158a") || str_eq(device_id, "0x158b") {
            Some("25G".to_owned())
        } else if str_eq(device_id, "0x1572") || str_eq(device_id, "0x1580") || str_eq(
            device_id,
            "0x1581",
        ) || str_eq(device_id, "0x1585") || str_eq(device_id, "0x1586") || str_eq(
            device_id,
            "0x1589",
        ) {
            Some("10G".to_owned())
        } else if str_eq(device_id, "0x1583") || str_eq(device_id, "0x1584") {
            Some("40G".to_owned())
        } else if str_eq(device_id, "0x1591") || str_eq(device_id, "0x1592") || str_eq(
            device_id,
            "0x1593",
        ) {
            Some("100G".to_owned())
        } else if str_eq(device_id, "0x10fb") || str_eq(device_id, "0x10fc") {
            Some("10G".to_owned())
        } else if str_eq(device_id, "0x1528") || str_eq(device_id, "0x1563") || str_eq(
            device_id,
            "0x15ac",
        ) || str_eq(device_id, "0x15ad") {
            Some("10G".to_owned())
        } else if str_eq(device_id, "0x1521") || str_eq(device_id, "0x1522") || str_eq(
            device_id,
            "0x1523",
        ) || str_eq(device_id, "0x1524") {
            Some("1G".to_owned())
        } else if str_eq(device_id, "0x10c9") || str_eq(device_id, "0x10e6") || str_eq(
            device_id,
            "0x10e7",
        ) || str_eq(device_id, "0x10e8") {
            Some("1G".to_owned())
        } else if str_eq(device_id, "0x150e") || str_eq(device_id, "0x150f") || str_eq(
            device_id,
            "0x1510",
        ) || str_eq(device_id, "0x1511") {
            Some("1G".to_owned())
        } else if str_eq(device_id, "0x159b") {
            Some("25G".to_owned())
        } else if str_eq(device_id, "0x15ff") {
            Some("10G".to_owned())
        } else {
            None
        }
    } else if str_eq(vendor_id, "0x15b3") {
        if str_eq(device_id, "0x1003") || str_eq(device_id, "0x1007") {
            Some("40G".to_owned())
        } else if str_eq(device_id, "0x1013") || str_eq(device_id, "0x1014") || str_eq(
            device_id,
            "0x1015",
        ) || str_eq(device_id, "0x1016") || str_eq(device_id, "0x1018") || str_eq(
            device_id,
            "0x101e",
        ) {
            Some("100G".to_owned())
        } else if str_eq(device_id, "0x1017") {
            Some("50G".to_owned())
        } else if str_eq(device_id, "0x1019") || str_eq(device_id, "0x101a") || str_eq(
            device_id,
            "0x101b",
        ) || str_eq(device_id, "0x101c") {
            Some("40G".to_owned())
        } else if str_eq(device_id, "0x101d") || str_eq(device_id, "0x101f") {
            Some("25G".to_owned())
        } else {
            None
        }
    } else if str_eq(vendor_id, "0x14e4") {
        if str_eq(device_id, "0x16d7") || str_eq(device_id, "0x16d8") {
            Some("25G".to_owned())
        } else if str_eq(device_id, "0x16dc") {
            Some("100G".to_owned())
        } else if str_eq(device_id, "0x16e1") || str_eq(device_id, "0x16e2") || str_eq(
            device_id,
            "0x16e3",
        ) {
            Some("50G".to_owned())
        } else {
            None
        }
    } else if str_eq(vendor_id, "0x1425") {
        if str_eq(device_id, "0x5400") || str_eq(device_id, "0x5401") {
            Some("10G".to_owned())
        } else if str_eq(device_id, "0x5410") || str_eq(device_id, "0x5411") {
            Some("40G".to_owned())
        } else if str_eq(device_id, "0x5680") || str_eq(device_id, "0x5681") {
            Some("100G".to_owned())
        } else {
            None
        }
    } else if str_eq(vendor_id, "0x1924") {
        if str_eq(device_id, "0x0803") || str_eq(device_id, "0x0813") {
            Some("10G".to_owned())
        } else if str_eq(device_id, "0x0903") {
            Some("40G".to_owned())
        } else {
            None
        }
    } else if str_eq(vendor_id, "0x1077") {
        if str_eq(device_id, "0x8070") {
            Some("10G".to_owned())
        } else if str_eq(device_id, "0x8090") {
            Some("40G".to_owned())
        } else {
            None
        }
    } else {
        None
    }
}

/// One directory entry of the PCI device tree, with the raw contents of the
/// pseudo-files the crate reads for it. A `None` stands for a file or
/// symlink that could not be read.
#[derive(Debug, Clone)]
pub struct PciDeviceEntry {
    /// The entry's name: the device's PCI address.
    pub name: String,
    /// Raw contents of the `class` file.
    pub class: Option<String>,
    /// Basename of the `driver` symlink target.
    pub driver: Option<String>,
    /// Basename of the `iommu_group` symlink target.
    pub iommu_group_link: Option<String>,
    /// Raw contents of the `vendor` file.
    pub vendor: Option<String>,
    /// Raw contents of the `device` file.
    pub device: Option<String>,
    /// Names listed under the `net/` directory, in directory order.
    pub net_names: Vec<String>,
    /// Reading of the interface's `speed` file.
    pub speed: SpeedReading,
}

/// An entry that enumeration keeps: named like a PCI address, with a
/// readable class whose trimmed value starts with the network-controller
/// prefix, and readable vendor and device ids.
pub open spec fn entry_eligible(e: PciDeviceEntry) -> bool {
    &&& spec_is_pci_address(e.name@)
    &&& e.class is Some
    &&& spec_starts_with(spec_trim(e.class.unwrap()@), "0x02"@)
    &&& e.vendor is Some
    &&& e.device is Some
}

/// The interface name a record gets: the first `net/` entry while a kernel
/// driver owns the device, else the first stored name for the address, else
/// the bracketed address.
pub open spec fn spec_interface_of(e: PciDeviceEntry, store: Mappings) -> Seq<char> {
    if spec_status_of(e.driver.deep_view()) == DeviceStatus::Kernel {
        if e.net_names.len() > 0 {
            e.net_names[0]@
        } else {
            spec_bracketed(e.name@)
        }
    } else {
        match first_name_for(store.pairs(), e.name@) {
            Some(n) => n,
            None => spec_bracketed(e.name@),
        }
    }
}

/// The record that an observation denotes, field by field.
pub open spec fn spec_record_of(e: PciDeviceEntry, store: Mappings, d: NetworkDevice) -> bool {
    &&& d.pci_address@ == e.name@
    &&& d.driver.deep_view() == e.driver.deep_view()
    &&& d.status == spec_status_of(e.driver.deep_view())
    &&& d.iommu_group == spec_iommu_group_of(e.iommu_group_link.deep_view())
    &&& e.vendor is Some && d.vendor_id@ == spec_trim(e.vendor.unwrap()@)
    &&& e.device is Some && d.device_id@ == spec_trim(e.device.unwrap()@)
    &&& d.max_speed.deep_view() == spec_max_speed(d.vendor_id@, d.device_id@)
    &&& d.interface@ == spec_interface_of(e, store)
    &&& d.speed.deep_view() == (if d.status == DeviceStatus::Kernel {
        Some(spec_link_speed(e.speed))
    } else {
        Option::<Seq<char>>::None
    })
}

/// Build the record for one observed device. The store supplies a last-known
/// interface name for devices that have none; an unreadable vendor or device
/// id is the one per-device failure.
pub fn get_device_info_by_pci(e: &PciDeviceEntry, store: &Mappings) -> (r: Result<
    NetworkDevice,
    VfioError,
>)
    ensures
        match r {
            Ok(d) => e.vendor is Some && e.device is Some && spec_record_of(*e, *store, d),
            Err(er) => {
                &&& (e.vendor is None || e.device is None)
                &&& er matches VfioError::Io(m) && (m@ == "Failed to read vendor ID"@ || m@
                    == "Failed to read device ID"@)
            },
        },
{
    let vendor_raw = match &e.vendor {
        Some(v) => v,
        None => {
            return Err(VfioError::Io("Failed to read vendor ID".to_owned()));
        },
    };
    let device_raw = match &e.device {
        Some(v) => v,
        None => {
            return Err(VfioError::Io("Failed to read device ID".to_owned()));
        },
    };
    let vendor_id = trim_ws(vendor_raw.as_str());
    let device_id = trim_ws(device_raw.as_str());
    let iommu_group = get_iommu_group(&e.iommu_group_link);
    let max_speed = get_max_speed(vendor_id.as_str(), device_id.as_str());
    let driver = clone_opt_string(&e.driver);
    let status = derive_status(&e.driver);
    let interface = if status == DeviceStatus::Kernel {
        if e.net_names.len() > 0 {
            e.net_names[0].clone()
        } else {
            bracketed_address(e.name.as_str())
        }
    } else {
        match store.name_for_address(e.name.as_str()) {
            Some(n) => n,
            None => bracketed_address(e.name.as_str()),
        }
    };
    let speed = if status == DeviceStatus::Kernel {
        Some(get_link_speed(&e.speed))
    } else {
        None
    };
    Ok(
        NetworkDevice {
            interface,
            pci_address: e.name.clone(),
            driver,
            iommu_group,
            vendor_id,
            device_id,
            speed,
            max_speed,
            status,
        },
    )
}

/// Build the record for a device known to be held by the bypass driver,
/// under the given interface name. Such a device never reports a link speed.
pub fn get_vfio_device_info(e: &PciDeviceEntry, interface: &str) -> (r: Result<
    NetworkDevice,
    VfioError,
>)
    ensures
        match r {
            Ok(d) => {
                &&& e.vendor is Some && e.device is Some
                &&& d.interface@ == interface@
                &&& d.pci_address@ == e.name@
                &&& d.driver.deep_view() == Some("vfio-pci"@)
                &&& d.status == DeviceStatus::Vfio
                &&& d.iommu_group == spec_iommu_group_of(e.iommu_group_link.deep_view())
                &&& d.vendor_id@ == spec_trim(e.vendor.unwrap()@)
                &&& d.device_id@ == spec_trim(e.device.unwrap()@)
                &&& d.max_speed.deep_view() == spec_max_speed(d.vendor_id@, d.device_id@)
                &&& d.speed is None
            },
            Err(er) => {
                &&& (e.vendor is None || e.device is None)
                &&& er matches VfioError::Io(m) && (m@ == "Failed to read vendor ID"@ || m@
                    == "Failed to read device ID"@)
            },
        },
{
    let vendor_raw = match &e.vendor {
        Some(v) => v,
        None => {
            return Err(VfioError::Io("Failed to read vendor ID".to_owned()));
        },
    };
    let device_raw = match &e.device {
        Some(v) => v,
        None => {
            return Err(VfioError::Io("Failed to read device ID".to_owned()));
        },
    };
    let vendor_id = trim_ws(vendor_raw.as_str());
    let device_id = trim_ws(device_raw.as_str());
    let iommu_group = get_iommu_group(&e.iommu_group_link);
    let max_speed = get_max_speed(vendor_id.as_str(), device_id.as_str());
    Ok(
        NetworkDevice {
            interface: interface.to_owned(),
            pci_address: e.name.clone(),
            driver: Some("vfio-pci".to_owned()),
            iommu_group,
            vendor_id,
            device_id,
            speed: None,
            max_speed,
            status: DeviceStatus::Vfio,
        },
    )
}

/// Resolve a live interface name to its record. The observation is the PCI
/// device entry the interface's `device` symlink reaches (with the speed
/// read from the interface's own directory), or nothing when the interface
/// does not exist or is not a physical PCI device.
pub fn get_device_info(interface: &str, observed: &Option<PciDeviceEntry>) -> (r: Result<
    NetworkDevice,
    VfioError,
>)
    ensures
        match r {
            Ok(d) => {
                &&& observed matches Some(e)
                &&& e.vendor is Some && e.device is Some
                &&& d.interface@ == interface@
                &&& d.pci_address@ == e.name@
                &&& d.driver.deep_view() == e.driver.deep_view()
                &&& d.status == spec_status_of(e.driver.deep_view())
                &&& d.iommu_group == spec_iommu_group_of(e.iommu_group_link.deep_view())
                &&& d.vendor_id@ == spec_trim(e.vendor.unwrap()@)
                &&& d.device_id@ == spec_trim(e.device.unwrap()@)
                &&& d.max_speed.deep_view() == spec_max_speed(d.vendor_id@, d.device_id@)
                &&& d.speed.deep_view() == Some(spec_link_speed(e.speed))
            },
            Err(er) => match observed {
                Some(e) => {
                    &&& (e.vendor is None || e.device is None)
                    &&& er matches VfioError::Io(m) && (m@ == "Failed to read vendor ID"@ || m@
                        == "Failed to read device ID"@)
                },
                None => er matches VfioError::DeviceNotFound(n) && n@ == interface@,
            },
        },
{
    let e = match observed {
        Some(e) => e,
        None => {
            return Err(VfioError::DeviceNotFound(interface.to_owned()));
        },
    };
    let vendor_raw = match &e.vendor {
        Some(v) => v,
        None => {
            return Err(VfioError::Io("Failed to read vendor ID".to_owned()));
        },
    };
    let device_raw = match &e.device {
        Some(v) => v,
        None => {
            return Err(VfioError::Io("Failed to read device ID".to_owned()));
        },
    };
    let vendor_id = trim_ws(vendor_raw.as_str());
    let device_id = trim_ws(device_raw.as_str());
    let iommu_group = get_iommu_group(&e.iommu_group_link);
    let max_speed = get_max_speed(vendor_id.as_str(), device_id.as_str());
    let driver = clone_opt_string(&e.driver);
    let status = derive_status(&e.driver);
    let speed = Some(get_link_speed(&e.speed));
    Ok(
        NetworkDevice {
            interface: interface.to_owned(),
            pci_address: e.name.clone(),
            driver,
            iommu_group,
            vendor_id,
            device_id,
            speed,
            max_speed,
            status,
        },
    )
}

/// Records sorted by interface name.
pub open spec fn sorted_by_interface(s: Seq<NetworkDevice>) -> bool {
    forall|a: int, b: int| 0 <= a < b < s.len() ==> spec_lex_le(s[a].interface@, s[b].interface@)
}

/// The entry at `j` is eligible and no earlier eligible entry has the same
/// address: the one occurrence enumeration keeps.
pub open spec fn first_eligible_occurrence(entries: Seq<PciDeviceEntry>, j: int) -> bool {
    &&& entry_eligible(entries[j])
    &&& forall|j2: int|
        0 <= j2 < j ==> !(entry_eligible(entries[j2]) && entries[j2].name@ == entries[j].name@)
}

/// Is some record in `v` already keyed by `addr`?
fn contains_address(v: &Vec<NetworkDevice>, addr: &str) -> (r: bool)
    ensures
        r == exists|k: int| 0 <= k < v@.len() && v@[k].pci_address@ == addr@,
{
    let n: usize = v.len();
    let mut k: usize = 0;
    while k < n
        invariant
            k <= n,
            n == v@.len(),
            forall|j: int| 0 <= j < k ==> v@[j].pci_address@ != addr@,
        decreases n - k,
    {
        if str_eq(v[k].pci_address.as_str(), addr) {
            assert(v@[k as int].pci_address@ == addr@);
            return true;
        }
        k = k + 1;
    }
    false
}

/// Insert `d` into the sorted vector `v`, keeping it sorted; equal interface
/// names keep arrival order.
fn insert_sorted(v: &mut Vec<NetworkDevice>, d: NetworkDevice)
    requires
        sorted_by_interface(old(v)@),
    ensures
        sorted_by_interface(final(v)@),
        exists|k: int| 0 <= k <= old(v)@.len() && final(v)@ == old(v)@.insert(k, d),
{
    let n: usize = v.len();
    let mut k: usize = 0;
    while k < n && lex_le(v[k].interface.as_str(), d.interface.as_str())
        invariant
            k <= n,
            n == v@.len(),
            *v == *old(v),
            sorted_by_interface(v@),
            forall|j: int| 0 <= j < k ==> spec_lex_le(v@[j].interface@, d.interface@),
        decreases n - k,
    {
        k = k + 1;
    }
    proof {
        if k < n {
            lemma_lex_le_total(v@[k as int].interface@, d.interface@);
            assert(spec_lex_le(d.interface@, v@[k as int].interface@));
        }
    }
    let ghost before = v@;
    let ghost dd = d;
    v.insert(k, d);
    proof {
        assert(v@ == before.insert(k as int, dd));
        assert forall|a: int, b: int| 0 <= a < b < v@.len() implies spec_lex_le(
            v@[a].interface@,
            v@[b].interface@,
        ) by {
            if a < k && b == k {
                assert(v@[a] == before[a]);
            } else if a == k && b > k {
                assert(v@[b] == before[b - 1]);
                assert(k < before.len() ==> spec_lex_le(dd.interface@, before[k as int].interface@));
                if b - 1 > k {
                    lemma_lex_le_trans(
                        dd.interface@,
                        before[k as int].interface@,
                        before[b - 1].interface@,
                    );
                }
            } else if a < k && b > k {
                assert(v@[a] == before[a] && v@[b] == before[b - 1]);
                assert(spec_lex_le(before[a].interface@, dd.interface@));
                if b - 1 > a {
                    assert(spec_lex_le(before[a].interface@, before[b - 1].interface@));
                } else {
                    assert(b - 1 == a);
                    assert(v@[b] == before[a]);
                    assert(spec_lex_le(v@[a].interface@, v@[b].interface@));
                }
            } else if a > k {
                assert(v@[a] == before[a - 1] && v@[b] == before[b - 1]);
            } else {
                assert(a < k && b < k);
                assert(v@[a] == before[a] && v@[b] == before[b]);
            }
        }
    }
}

/// `d` is the record of some eligible entry among the first `limit`.
pub open spec fn record_accounted(
    entries: Seq<PciDeviceEntry>,
    store: Mappings,
    limit: int,
    d: NetworkDevice,
) -> bool {
    exists|j: int|
        #![trigger entries[j]]
        0 <= j < limit && entry_eligible(entries[j]) && spec_record_of(entries[j], store, d)
}

/// Some record in `devs` is the record of the entry at `j`.
pub open spec fn entry_represented(
    entries: Seq<PciDeviceEntry>,
    store: Mappings,
    j: int,
    devs: Seq<NetworkDevice>,
) -> bool {
    exists|i: int|
        #![trigger devs[i]]
        0 <= i < devs.len() && spec_record_of(entries[j], store, devs[i])
}

/// Enumeration filters correctly: every record enumeration accounts for
/// stems from an entry whose trimmed class code starts with the
/// network-controller prefix — an entry without that prefix never
/// contributes a record, whatever driver holds it.
pub proof fn lemma_enumeration_only_network(
    entries: Seq<PciDeviceEntry>,
    store: Mappings,
    limit: int,
    d: NetworkDevice,
)
    requires
        record_accounted(entries, store, limit, d),
    ensures
        exists|j: int|
            #![trigger entries[j]]
            0 <= j < limit && entries[j].class is Some && spec_starts_with(
                spec_trim(entries[j].class.unwrap()@),
                "0x02"@,
            ) && spec_record_of(entries[j], store, d),
{
    let j = choose|j: int|
        #![trigger entries[j]]
        0 <= j < limit && entry_eligible(entries[j]) && spec_record_of(entries[j], store, d);
    assert(0 <= j < limit && entries[j].class is Some && spec_starts_with(
        spec_trim(entries[j].class.unwrap()@),
        "0x02"@,
    ) && spec_record_of(entries[j], store, d));
}

/// A record accounted for among the first `limit` entries stays accounted
/// for when one more entry is scanned.
proof fn lemma_accounted_widen(
    entries: Seq<PciDeviceEntry>,
    store: Mappings,
    limit: int,
    d: NetworkDevice,
)
    requires
        record_accounted(entries, store, limit, d),
    ensures
        record_accounted(entries, store, limit + 1, d),
{
    let j = choose|j: int|
        #![trigger entries[j]]
        0 <= j < limit && entry_eligible(entries[j]) && spec_record_of(entries[j], store, d);
    assert(0 <= j < limit + 1 && entry_eligible(entries[j]) && spec_record_of(entries[j], store, d));
}

/// An entry represented in a vector stays represented after an insertion.
proof fn lemma_represented_after_insert(
    entries: Seq<PciDeviceEntry>,
    store: Mappings,
    j: int,
    before: Seq<NetworkDevice>,
    after: Seq<NetworkDevice>,
    k: int,
    d: NetworkDevice,
)
    requires
        0 <= k <= before.len(),
        after == before.insert(k, d),
        entry_represented(entries, store, j, before),
    ensures
        entry_represented(entries, store, j, after),
{
    let i = choose|i: int|
        #![trigger before[i]]
        0 <= i < before.len() && spec_record_of(entries[j], store, before[i]);
    if i < k {
        assert(after[i] == before[i]);
        assert(0 <= i < after.len() && spec_record_of(entries[j], store, after[i]));
    } else {
        assert(after[i + 1] == before[i]);
        assert(0 <= i + 1 < after.len() && spec_record_of(entries[j], store, after[i + 1]));
    }
}

/// Enumerate the network devices of a scan of the PCI device tree: keep each
/// entry named like a PCI address whose class marks a network controller and
/// whose ids are readable, build one record per distinct address, and return
/// them sorted by interface name. An unreadable device is skipped, never an
/// error.
#[verifier::rlimit(100)]
pub fn list_network_devices(entries: &Vec<PciDeviceEntry>, store: &Mappings) -> (r: Vec<
    NetworkDevice,
>)
    ensures
        sorted_by_interface(r@),
        forall|i: int|
            #![trigger r@[i]]
            0 <= i < r@.len() ==> record_accounted(entries@, *store, entries@.len() as int, r@[i]),
        forall|j: int|
            #![trigger first_eligible_occurrence(entries@, j)]
            0 <= j < entries@.len() && first_eligible_occurrence(entries@, j)
                ==> entry_represented(entries@, *store, j, r@),
        forall|i1: int, i2: int|
            0 <= i1 < i2 < r@.len() ==> r@[i1].pci_address@ != r@[i2].pci_address@,
{
    let n: usize = entries.len();
    let mut out: Vec<NetworkDevice> = Vec::new();
    let mut j: usize = 0;
    while j < n
        invariant
            j <= n,
            n == entries@.len(),
            sorted_by_interface(out@),
            forall|i: int|
                #![trigger out@[i]]
                0 <= i < out@.len() ==> record_accounted(entries@, *store, j as int, out@[i]),
            forall|j2: int|
                #![trigger first_eligible_occurrence(entries@, j2)]
                0 <= j2 < j && first_eligible_occurrence(entries@, j2) ==> entry_represented(
                    entries@,
                    *store,
                    j2,
                    out@,
                ),
            forall|i1: int, i2: int|
                0 <= i1 < i2 < out@.len() ==> out@[i1].pci_address@ != out@[i2].pci_address@,
        decreases n - j,
    {
        let e = &entries[j];
        let keep = is_pci_address(e.name.as_str()) && match &e.class {
            Some(c) => {
                let t = trim_ws(c.as_str());
                starts_with(t.as_str(), "0x02")
            },
            None => false,
        };
        if keep {
            match get_device_info_by_pci(e, store) {
                Ok(d) => {
                    if !contains_address(&out, e.name.as_str()) {
                        let ghost before = out@;
                        let ghost dd = d;
                        insert_sorted(&mut out, d);
                        proof {
                            let k = choose|k: int| 0 <= k <= before.len() && out@ == before.insert(
                                k,
                                dd,
                            );
                            assert(entry_eligible(entries@[j as int]));
                            assert(spec_record_of(entries@[j as int], *store, dd));
                            assert forall|i: int| #![trigger out@[i]] 0 <= i < out@.len() implies
                                record_accounted(entries@, *store, j + 1, out@[i]) by {
                                if i < k {
                                    assert(out@[i] == before[i]);
                                    lemma_accounted_widen(entries@, *store, j as int, before[i]);
                                } else if i == k {
                                    assert(out@[i] == dd);
                                    assert(0 <= j < j + 1 && entry_eligible(entries@[j as int])
                                        && spec_record_of(entries@[j as int], *store, out@[i]));
                                } else {
                                    assert(out@[i] == before[i - 1]);
                                    lemma_accounted_widen(entries@, *store, j as int, before[i - 1]);
                                }
                            }
                            assert forall|j2: int|
                                #![trigger first_eligible_occurrence(entries@, j2)]
                                0 <= j2 < j + 1 && first_eligible_occurrence(entries@, j2) implies
                                entry_represented(entries@, *store, j2, out@) by {
                                if j2 < j {
                                    lemma_represented_after_insert(
                                        entries@,
                                        *store,
                                        j2,
                                        before,
                                        out@,
                                        k,
                                        dd,
                                    );
                                } else {
                                    assert(out@[k] == dd);
                                    assert(0 <= k < out@.len() && spec_record_of(
                                        entries@[j2],
                                        *store,
                                        out@[k],
                                    ));
                                }
                            }
                            assert forall|i1: int, i2: int| 0 <= i1 < i2 < out@.len() implies
                                out@[i1].pci_address@ != out@[i2].pci_address@ by {
                                if i1 < k && i2 < k {
                                    assert(out@[i1] == before[i1] && out@[i2] == before[i2]);
                                } else if i1 < k && i2 == k {
                                    assert(out@[i1] == before[i1] && out@[i2] == dd);
                                } else if i1 < k && i2 > k {
                                    assert(out@[i1] == before[i1] && out@[i2] == before[i2 - 1]);
                                } else if i1 == k {
                                    assert(out@[i1] == dd && out@[i2] == before[i2 - 1]);
                                } else {
                                    assert(out@[i1] == before[i1 - 1] && out@[i2] == before[i2
                                        - 1]);
                                }
                            }
                        }
                    } else {
                        proof {
                            let k = choose|k: int|
                                0 <= k < out@.len() && out@[k].pci_address@
                                    == entries@[j as int].name@;
                            let x = out@[k];
                            let j3 = choose|j3: int|
                                #![trigger entries@[j3]]
                                0 <= j3 < j && entry_eligible(entries@[j3]) && spec_record_of(
                                    entries@[j3],
                                    *store,
                                    x,
                                );
                            assert(entries@[j3].name@ == entries@[j as int].name@);
                            assert(!first_eligible_occurrence(entries@, j as int));
                            assert forall|i: int| #![trigger out@[i]] 0 <= i < out@.len() implies
                                record_accounted(entries@, *store, j + 1, out@[i]) by {
                                let x2 = out@[i];
                                lemma_accounted_widen(entries@, *store, j as int, out@[i]);
                            }
                        }
                    }
                },
                Err(_) => {
                    proof {
                        assert(!entry_eligible(entries@[j as int]));
                        assert forall|i: int| #![trigger out@[i]] 0 <= i < out@.len() implies
                            record_accounted(entries@, *store, j + 1, out@[i]) by {
                            let x2 = out@[i];
                            lemma_accounted_widen(entries@, *store, j as int, out@[i]);
                        }
                    }
                },
            }
        } else {
            proof {
                assert(!entry_eligible(entries@[j as int]));
                assert forall|i: int| #![trigger out@[i]] 0 <= i < out@.len() implies
                    record_accounted(entries@, *store, j + 1, out@[i]) by {
                    let x2 = out@[i];
                    lemma_accounted_widen(entries@, *store, j as int, out@[i]);
                }
            }
        }
        j = j + 1;
    }
    out
}

} // verus!
