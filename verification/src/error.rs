//! The crate's error taxonomy. Hard failures abort a batch; advisory
//! conditions (a shared isolation group) are reported as values, never as
//! errors.

use vstd::prelude::*;
use crate::num::{spec_u32_string, u32_to_string};

verus! {

/// Why an operation failed.
///
/// `DeviceNotFound` covers identifiers that no resolution strategy can reach;
/// `DeviceInUse` an attach request refused because the device is busy with
/// another driver; `Io` an unexpected pseudo-file read or write failure;
/// `ConfigNotFound` a missing mapping store and `InvalidConfig` a corrupt one.
#[derive(Debug, Clone, PartialEq, Eq)]
pub enum VfioError {
    DeviceNotFound(String),
    GroupNotFound(u32),
    IommuNotEnabled,
    VfioModuleNotLoaded,
    AlreadyBound(String, String),
    DeviceInUse(String),
    MultiDeviceGroup(u32),
    PermissionDenied,
    ConfigNotFound,
    InvalidConfig(String),
    GrubError(String),
    SystemdError(String),
    Io(String),
}

/// The rendered message for each error.
pub open spec fn spec_message(e: VfioError) -> Seq<char> {
    match e {
        VfioError::DeviceNotFound(id) => "Device not found: "@ + id@,
        VfioError::GroupNotFound(g) => "IOMMU group not found: "@ + spec_u32_string(g as int),
        VfioError::IommuNotEnabled => "IOMMU not enabled. Run 'vfio-tool setup-grub' to enable it."@,
        VfioError::VfioModuleNotLoaded => "VFIO module not loaded. Run 'sudo modprobe vfio-pci'"@,
        VfioError::AlreadyBound(id, drv) => "Device "@ + id@ + " is already bound to "@ + drv@,
        VfioError::DeviceInUse(id) => "Device "@ + id@ + " is in use and cannot be unbound"@,
        VfioError::MultiDeviceGroup(g) => "IOMMU group "@ + spec_u32_string(g as int)
            + " contains multiple devices. All must be bound together."@,
        VfioError::PermissionDenied => "Permission denied. Try running with sudo."@,
        VfioError::ConfigNotFound => "Configuration file not found"@,
        VfioError::InvalidConfig(s) => "Invalid configuration: "@ + s@,
        VfioError::GrubError(s) => "GRUB configuration error: "@ + s@,
        VfioError::SystemdError(s) => "Systemd error: "@ + s@,
        VfioError::Io(s) => "IO error: "@ + s@,
    }
}

impl VfioError {
    /// Render the error as a human-readable message.
    pub fn message(&self) -> (r: String)
        ensures
            r@ == spec_message(*self),
    {
        match self {
            VfioError::DeviceNotFound(id) => {
                let mut s = String::new();
                s.append("Device not found: ");
                s.append(id.as_str());
                proof {
                    lemma_empty_prefix(s@, "Device not found: "@ + id@);
                }
                s
            },
            VfioError::GroupNotFound(g) => {
                let mut s = String::new();
                s.append("IOMMU group not found: ");
                let gs = u32_to_string(*g);
                s.append(gs.as_str());
                proof {
                    lemma_empty_prefix(s@, "IOMMU group not found: "@ + spec_u32_string(*g as int));
                }
                s
            },
            VfioError::IommuNotEnabled => {
                let mut s = String::new();
                s.append("IOMMU not enabled. Run 'vfio-tool setup-grub' to enable it.");
                proof {
                    lemma_empty_prefix(s@, spec_message(*self));
                }
                s
            },
            VfioError::VfioModuleNotLoaded => {
                let mut s = String::new();
                s.append("VFIO module not loaded. Run 'sudo modprobe vfio-pci'");
                proof {
                    lemma_empty_prefix(s@, spec_message(*self));
                }
                s
            },
            VfioError::AlreadyBound(id, drv) => {
                let mut s = String::new();
                s.append("Device ");
                s.append(id.as_str());
                s.append(" is already bound to ");
                s.append(drv.as_str());
                proof {
                    lemma_empty_prefix(s@, spec_message(*self));
                }
                s
            },
            VfioError::DeviceInUse(id) => {
                let mut s = String::new();
                s.append("Device ");
                s.append(id.as_str());
                s.append(" is in use and cannot be unbound");
                proof {
                    lemma_empty_prefix(s@, spec_message(*self));
                }
                s
            },
            VfioError::MultiDeviceGroup(g) => {
                let mut s = String::new();
                s.append("IOMMU group ");
                let gs = u32_to_string(*g);
                s.append(gs.as_str());
                s.append(" contains multiple devices. All must be bound together.");
                proof {
                    lemma_empty_prefix(s@, spec_message(*self));
                }
                s
            },
            VfioError::PermissionDenied => {
                let mut s = String::new();
                s.append("Permission denied. Try running with sudo.");
                proof {
                    lemma_empty_prefix(s@, spec_message(*self));
                }
                s
            },
            VfioError::ConfigNotFound => {
                let mut s = String::new();
                s.append("Configuration file not found");
                proof {
                    lemma_empty_prefix(s@, spec_message(*self));
                }
                s
            },
            VfioError::InvalidConfig(m) => {
                let mut s = String::new();
                s.append("Invalid configuration: ");
                s.append(m.as_str());
                proof {
                    lemma_empty_prefix(s@, spec_message(*self));
                }
                s
            },
            VfioError::GrubError(m) => {
                let mut s = String::new();
                s.append("GRUB configuration error: ");
                s.append(m.as_str());
                proof {
                    lemma_empty_prefix(s@, spec_message(*self));
                }
                s
            },
            VfioError::SystemdError(m) => {
                let mut s = String::new();
                s.append("Systemd error: ");
                s.append(m.as_str());
                proof {
                    lemma_empty_prefix(s@, spec_message(*self));
                }
                s
            },
            VfioError::Io(m) => {
                let mut s = String::new();
                s.append("IO error: ");
                s.append(m.as_str());
                proof {
                    lemma_empty_prefix(s@, spec_message(*self));
                }
                s
            },
        }
    }
}

proof fn lemma_empty_prefix(a: Seq<char>, b: Seq<char>)
    requires
        a =~= b,
    ensures
        a == b,
{
}

} // verus!
