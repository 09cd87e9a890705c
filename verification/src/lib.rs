//! Control-plane logic for moving PCI network devices between the kernel's
//! network stack and the vfio-pci bypass driver.
//!
//! Everything here is pure: the functions consume snapshots of the sysfs
//! device tree (taken by a thin unverified shell) and produce device records,
//! pseudo-file write plans and updated configuration values. The core
//! pieces are the identity resolver ([`device`], [`resolve`]), the
//! persistent name-to-address mapping store ([`mapping`]), the bind/unbind
//! state machine ([`engine`]) and the isolation-group advisor ([`groups`]).

use vstd::prelude::*;

pub mod addr;
pub mod checks;
pub mod config;
pub mod device;
pub mod display;
pub mod engine;
pub mod error;
pub mod groups;
pub mod frameworks;
pub mod grub;
pub mod iommu;
pub mod mapping;
pub mod num;
pub mod resolve;
pub mod strings;
pub mod systemd;

verus! {

} // verus!
