//! System readiness: whether the isolation unit is on, the bypass module
//! loaded, and how many groups and bypass-held devices the host shows.

use vstd::prelude::*;
use crate::addr::spec_is_pci_address;
use crate::grub::CpuVendor;
use crate::strings::{has_line_starting_with, spec_has_line_starting_with};

verus! {

/// A snapshot of the host's readiness for kernel bypass.
#[derive(Debug, Clone, Copy, PartialEq, Eq, Structural)]
pub struct SystemStatus {
    pub iommu_enabled: bool,
    pub vfio_module_loaded: bool,
    pub iommu_groups_count: usize,
    pub vfio_devices_count: usize,
    pub cpu_vendor: CpuVendor,
}

/// One thing standing between the host and a working bypass setup.
#[derive(Debug, Clone, Copy, PartialEq, Eq, Structural)]
pub enum SystemIssue {
    IommuNotEnabled,
    VfioModuleNotLoaded,
    NoIommuGroups,
}

impl SystemIssue {
    /// What is wrong.
    pub fn description(&self) -> (r: &'static str)
        ensures
            r@ == match self {
                SystemIssue::IommuNotEnabled => "IOMMU is not enabled in kernel parameters"@,
                SystemIssue::VfioModuleNotLoaded => "VFIO kernel module is not loaded"@,
                SystemIssue::NoIommuGroups => "No IOMMU groups found"@,
            },
    {
        match self {
            SystemIssue::IommuNotEnabled => "IOMMU is not enabled in kernel parameters",
            SystemIssue::VfioModuleNotLoaded => "VFIO kernel module is not loaded",
            SystemIssue::NoIommuGroups => "No IOMMU groups found",
        }
    }

    /// What to run or change to fix it.
    pub fn fix_command(&self) -> (r: &'static str)
        ensures
            r@ == match self {
                SystemIssue::IommuNotEnabled => "vfio-tool setup-grub"@,
                SystemIssue::VfioModuleNotLoaded => "sudo modprobe vfio-pci"@,
                SystemIssue::NoIommuGroups =>
                    "Enable IOMMU in BIOS/UEFI (VT-d for Intel, AMD-Vi for AMD)"@,
            },
    {
        match self {
            SystemIssue::IommuNotEnabled => "vfio-tool setup-grub",
            SystemIssue::VfioModuleNotLoaded => "sudo modprobe vfio-pci",
            SystemIssue::NoIommuGroups => "Enable IOMMU in BIOS/UEFI (VT-d for Intel, AMD-Vi for AMD)",
        }
    }
}

/// Assemble the status snapshot from the host observations.
pub fn get_system_status(
    iommu_enabled: bool,
    vfio_module_loaded: bool,
    iommu_groups_count: usize,
    vfio_devices_count: usize,
    cpu_vendor: CpuVendor,
) -> (r: SystemStatus)
    ensures
        r == (SystemStatus {
            iommu_enabled,
            vfio_module_loaded,
            iommu_groups_count,
            vfio_devices_count,
            cpu_vendor,
        }),
{
    SystemStatus { iommu_enabled, vfio_module_loaded, iommu_groups_count, vfio_devices_count, cpu_vendor }
}

/// The issues the given observations imply, in fixed order: isolation unit
/// off, bypass module missing, no groups exposed.
pub fn check_system(iommu_enabled: bool, vfio_module_loaded: bool, iommu_groups_count: usize) -> (r:
    Vec<SystemIssue>)
    ensures
        r@ == (if iommu_enabled {
            Seq::<SystemIssue>::empty()
        } else {
            seq![SystemIssue::IommuNotEnabled]
        }) + (if vfio_module_loaded {
            Seq::<SystemIssue>::empty()
        } else {
            seq![SystemIssue::VfioModuleNotLoaded]
        }) + (if iommu_groups_count > 0 {
            Seq::<SystemIssue>::empty()
        } else {
            seq![SystemIssue::NoIommuGroups]
        }),
{
    let mut issues: Vec<SystemIssue> = Vec::new();
    if !iommu_enabled {
        issues.push(SystemIssue::IommuNotEnabled);
    }
    if !vfio_module_loaded {
        issues.push(SystemIssue::VfioModuleNotLoaded);
    }
    if iommu_groups_count == 0 {
        issues.push(SystemIssue::NoIommuGroups);
    }
    proof {
        assert(issues@ =~= (if iommu_enabled {
            Seq::<SystemIssue>::empty()
        } else {
            seq![SystemIssue::IommuNotEnabled]
        }) + (if vfio_module_loaded {
            Seq::<SystemIssue>::empty()
        } else {
            seq![SystemIssue::VfioModuleNotLoaded]
        }) + (if iommu_groups_count > 0 {
            Seq::<SystemIssue>::empty()
        } else {
            seq![SystemIssue::NoIommuGroups]
        }));
    }
    issues
}

/// Whether the bypass module is loaded, judged from the contents of the
/// module-list pseudo-file: some line starts with the module's name.
pub fn is_vfio_module_loaded(modules: &str) -> (r: bool)
    ensures
        r == spec_has_line_starting_with(modules@, "vfio_pci"@),
{
    has_line_starting_with(modules, "vfio_pci")
}

/// Count the devices the bypass driver holds: the entries of its directory
/// whose names are shaped like PCI addresses.
pub fn count_vfio_devices(names: &Vec<String>) -> (r: usize)
    ensures
        r == names.deep_view().filter(|n: Seq<char>| spec_is_pci_address(n)).len(),
{
    let n: usize = names.len();
    let mut count: usize = 0;
    let mut i: usize = 0;
    proof {
        assert(names.deep_view().take(0).filter(|n: Seq<char>| spec_is_pci_address(n)) =~= Seq::<
            Seq<char>,
        >::empty());
    }
    while i < n
        invariant
            i <= n,
            n == names@.len(),
            count == names.deep_view().take(i as int).filter(
                |n: Seq<char>| spec_is_pci_address(n),
            ).len(),
            count <= i,
        decreases n - i,
    {
        let ghost pred = |n: Seq<char>| spec_is_pci_address(n);
        let ghost prefix = names.deep_view().take(i as int);
        let ghost next = names.deep_view().take(i + 1);
        proof {
            assert(next.drop_last() =~= prefix);
            assert(next.last() == names@[i as int]@);
            reveal(Seq::filter);
        }
        if crate::addr::is_pci_address(names[i].as_str()) {
            count = count + 1;
            proof {
                assert(next.filter(pred) =~= prefix.filter(pred).push(names@[i as int]@));
            }
        } else {
            proof {
                assert(next.filter(pred) =~= prefix.filter(pred));
            }
        }
        i = i + 1;
    }
    proof {
        assert(names.deep_view().take(n as int) =~= names.deep_view());
    }
    count
}

} // verus!
