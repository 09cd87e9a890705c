//! Pure rendering helpers: the status word of a record and a human-readable
//! description of the card. The table, JSON and terminal output built on
//! these live in the unverified shell.

use vstd::prelude::*;
use crate::device::{DeviceStatus, NetworkDevice};
use crate::strings::str_eq;

verus! {

/// The status word a record is shown with.
pub fn status_to_string(status: &DeviceStatus) -> (r: String)
    ensures
        r@ == match status {
            DeviceStatus::Vfio => "vfio"@,
            DeviceStatus::Kernel => "kernel"@,
            DeviceStatus::Unbound => "unbound"@,
        },
{
    let mut s = String::new();
    match status {
        DeviceStatus::Vfio => s.append("vfio"),
        DeviceStatus::Kernel => s.append("kernel"),
        DeviceStatus::Unbound => s.append("unbound"),
    }
    proof {
        assert(s@ =~= match status {
            DeviceStatus::Vfio => "vfio"@,
            DeviceStatus::Kernel => "kernel"@,
            DeviceStatus::Unbound => "unbound"@,
        });
    }
    s
}

/// The description a card is shown with: a named model for the pairs the
/// crate knows, any Solarflare card by make, else the nominal speed with
/// `NIC`, else a generic label.
pub open spec fn spec_device_description(d: NetworkDevice) -> Seq<char> {
    if d.vendor_id@ == "0x15b3"@ && d.device_id@ == "0x101f"@ {
        "Mellanox ConnectX-4 Lx"@
    } else if d.vendor_id@ == "0x15b3"@ && (d.device_id@ == "0x1013"@ || d.device_id@
        == "0x1015"@) {
        "Mellanox ConnectX-4"@
    } else if d.vendor_id@ == "0x15b3"@ && d.device_id@ == "0x1017"@ {
        "Mellanox ConnectX-5"@
    } else if d.vendor_id@ == "0x8086"@ && (d.device_id@ == "0x158a"@ || d.device_id@
        == "0x158b"@) {
        "Intel XXV710 25GbE"@
    } else if d.vendor_id@ == "0x8086"@ && (d.device_id@ == "0x1572"@ || d.device_id@
        == "0x15ff"@) {
        "Intel X710 10GbE"@
    } else if d.vendor_id@ == "0x1924"@ {
        "Solarflare NIC"@
    } else {
        match d.max_speed {
            Some(s) => s@ + " NIC"@,
            None => "Network Card"@,
        }
    }
}

/// Render the card's description.
pub fn get_device_description(device: &NetworkDevice) -> (r: String)
    ensures
        r@ == spec_device_description(*device),
{
    let v = device.vendor_id.as_str();
    let d = device.device_id.as_str();
    if str_eq(v, "0x15b3") && str_eq(d, "0x101f") {
        "Mellanox ConnectX-4 Lx".to_owned()
    } else if str_eq(v, "0x15b3") && (str_eq(d, "0x1013") || str_eq(d, "0x1015")) {
        "Mellanox ConnectX-4".to_owned()
    } else if str_eq(v, "0x15b3") && str_eq(d, "0x1017") {
        "Mellanox ConnectX-5".to_owned()
    } else if str_eq(v, "0x8086") && (str_eq(d, "0x158a") || str_eq(d, "0x158b")) {
        "Intel XXV710 25GbE".to_owned()
    } else if str_eq(v, "0x8086") && (str_eq(d, "0x1572") || str_eq(d, "0x15ff")) {
        "Intel X710 10GbE".to_owned()
    } else if str_eq(v, "0x1924") {
        "Solarflare NIC".to_owned()
    } else {
        match &device.max_speed {
            Some(s) => {
                let mut out = s.clone();
                out.append(" NIC");
                out
            },
            None => "Network Card".to_owned(),
        }
    }
}

} // verus!
