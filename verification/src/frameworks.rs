//! Kernel-bypass and kernel-stack frameworks: which devices can serve each
//! framework, which are ready right now, and the reference string an
//! application would name the device by.

use vstd::prelude::*;
use crate::device::{DeviceStatus, NetworkDevice};
use crate::error::VfioError;
use crate::strings::str_eq;

verus! {

/// A supported framework.
#[derive(Debug, Clone, Copy, PartialEq, Eq, Structural)]
pub enum Framework {
    Dpdk,
    Rdma,
    TcpDirect,
    OpenOnload,
    EfVi,
    Spdk,
    Vpp,
    Xdp,
}

/// The code point of `c` with an ASCII capital folded to its small letter.
pub open spec fn spec_ascii_lower(c: char) -> int {
    if 'A' as u32 <= c as u32 <= 'Z' as u32 {
        c as u32 + 32
    } else {
        c as u32 as int
    }
}

/// The two strings are equal up to ASCII case.
pub open spec fn spec_eq_ignore_ascii_case(a: Seq<char>, b: Seq<char>) -> bool {
    a.len() == b.len() && forall|i: int|
        0 <= i < a.len() ==> spec_ascii_lower(a[i]) == spec_ascii_lower(b[i])
}

/// Compare two strings ignoring ASCII case.
pub fn eq_ignore_ascii_case(a: &str, b: &str) -> (r: bool)
    ensures
        r == spec_eq_ignore_ascii_case(a@, b@),
{
    let alen: usize = a.unicode_len();
    let blen: usize = b.unicode_len();
    if alen != blen {
        return false;
    }
    let mut i: usize = 0;
    while i < alen
        invariant
            i <= alen,
            alen == a@.len(),
            alen == b@.len(),
            forall|j: int| 0 <= j < i ==> spec_ascii_lower(a@[j]) == spec_ascii_lower(b@[j]),
        decreases alen - i,
    {
        let ca = a.get_char(i) as u32;
        let cb = b.get_char(i) as u32;
        let la = if 'A' as u32 <= ca && ca <= 'Z' as u32 {
            ca + 32
        } else {
            ca
        };
        let lb = if 'A' as u32 <= cb && cb <= 'Z' as u32 {
            cb + 32
        } else {
            cb
        };
        if la != lb {
            assert(spec_ascii_lower(a@[i as int]) != spec_ascii_lower(b@[i as int]));
            return false;
        }
        i = i + 1;
    }
    true
}

/// The framework a name denotes, compared ignoring ASCII case.
pub open spec fn spec_framework_of(s: Seq<char>) -> Option<Framework> {
    if spec_eq_ignore_ascii_case(s, "dpdk"@) {
        Some(Framework::Dpdk)
    } else if spec_eq_ignore_ascii_case(s, "rdma"@) {
        Some(Framework::Rdma)
    } else if spec_eq_ignore_ascii_case(s, "tcpdirect"@) {
        Some(Framework::TcpDirect)
    } else if spec_eq_ignore_ascii_case(s, "openonload"@) {
        Some(Framework::OpenOnload)
    } else if spec_eq_ignore_ascii_case(s, "efvi"@) {
        Some(Framework::EfVi)
    } else if spec_eq_ignore_ascii_case(s, "spdk"@) {
        Some(Framework::Spdk)
    } else if spec_eq_ignore_ascii_case(s, "vpp"@) {
        Some(Framework::Vpp)
    } else if spec_eq_ignore_ascii_case(s, "xdp"@) {
        Some(Framework::Xdp)
    } else {
        None
    }
}

impl Framework {
    /// Parse a framework name, ignoring ASCII case.
    pub fn from_str(s: &str) -> (r: Option<Framework>)
        ensures
            r == spec_framework_of(s@),
    {
        if eq_ignore_ascii_case(s, "dpdk") {
            Some(Framework::Dpdk)
        } else if eq_ignore_ascii_case(s, "rdma") {
            Some(Framework::Rdma)
        } else if eq_ignore_ascii_case(s, "tcpdirect") {
            Some(Framework::TcpDirect)
        } else if eq_ignore_ascii_case(s, "openonload") {
            Some(Framework::OpenOnload)
        } else if eq_ignore_ascii_case(s, "efvi") {
            Some(Framework::EfVi)
        } else if eq_ignore_ascii_case(s, "spdk") {
            Some(Framework::Spdk)
        } else if eq_ignore_ascii_case(s, "vpp") {
            Some(Framework::Vpp)
        } else if eq_ignore_ascii_case(s, "xdp") {
            Some(Framework::Xdp)
        } else {
            None
        }
    }

    /// The framework's display name.
    pub fn name(&self) -> (r: &'static str)
        ensures
            r@ == match self {
                Framework::Dpdk => "DPDK"@,
                Framework::Rdma => "RDMA"@,
                Framework::TcpDirect => "TCPDirect"@,
                Framework::OpenOnload => "OpenOnload"@,
                Framework::EfVi => "ef_vi"@,
                Framework::Spdk => "SPDK"@,
                Framework::Vpp => "VPP"@,
                Framework::Xdp => "XDP"@,
            },
    {
        match self {
            Framework::Dpdk => "DPDK",
            Framework::Rdma => "RDMA",
            Framework::TcpDirect => "TCPDirect",
            Framework::OpenOnload => "OpenOnload",
            Framework::EfVi => "ef_vi",
            Framework::Spdk => "SPDK",
            Framework::Vpp => "VPP",
            Framework::Xdp => "XDP",
        }
    }

    /// The framework drives devices through the bypass driver.
    pub fn requires_vfio(&self) -> (r: bool)
        ensures
            r == (*self == Framework::Dpdk || *self == Framework::TcpDirect || *self
                == Framework::Spdk || *self == Framework::Vpp),
    {
        match self {
            Framework::Dpdk | Framework::TcpDirect | Framework::Spdk | Framework::Vpp => true,
            _ => false,
        }
    }

    /// The framework drives devices through the kernel stack.
    pub fn requires_kernel(&self) -> (r: bool)
        ensures
            r == (*self == Framework::Rdma || *self == Framework::OpenOnload || *self
                == Framework::EfVi || *self == Framework::Xdp),
    {
        match self {
            Framework::Rdma | Framework::OpenOnload | Framework::EfVi | Framework::Xdp => true,
            _ => false,
        }
    }
}

/// The device's silicon can do remote direct memory access: any Mellanox
/// card, or one of the Broadcom parts with converged-ethernet support.
pub open spec fn spec_is_rdma_capable(d: NetworkDevice) -> bool {
    ||| d.vendor_id@ == "0x15b3"@
    ||| (d.vendor_id@ == "0x14e4"@ && (d.device_id@ == "0x16d7"@ || d.device_id@ == "0x16d8"@
        || d.device_id@ == "0x16dc"@ || d.device_id@ == "0x16e1"@ || d.device_id@ == "0x16e2"@
        || d.device_id@ == "0x16e3"@))
}

/// Is the device RDMA-capable?
pub fn is_rdma_capable(device: &NetworkDevice) -> (r: bool)
    ensures
        r == spec_is_rdma_capable(*device),
{
    if str_eq(device.vendor_id.as_str(), "0x15b3") {
        true
    } else if str_eq(device.vendor_id.as_str(), "0x14e4") {
        str_eq(device.device_id.as_str(), "0x16d7") || str_eq(device.device_id.as_str(), "0x16d8")
            || str_eq(device.device_id.as_str(), "0x16dc") || str_eq(
            device.device_id.as_str(),
            "0x16e1",
        ) || str_eq(device.device_id.as_str(), "0x16e2") || str_eq(
            device.device_id.as_str(),
            "0x16e3",
        )
    } else {
        false
    }
}

/// Is the device a Solarflare card?
pub fn is_solarflare(device: &NetworkDevice) -> (r: bool)
    ensures
        r == (device.vendor_id@ == "0x1924"@),
{
    str_eq(device.vendor_id.as_str(), "0x1924")
}

/// The device's driver is one of those with express data path support.
pub open spec fn spec_is_xdp_capable(d: NetworkDevice) -> bool {
    match d.driver {
        Some(drv) => {
            ||| drv@ == "i40e"@
            ||| drv@ == "ice"@
            ||| drv@ == "ixgbe"@
            ||| drv@ == "ixgbevf"@
            ||| drv@ == "mlx5_core"@
            ||| drv@ == "mlx4_core"@
            ||| drv@ == "virtio_net"@
            ||| drv@ == "veth"@
            ||| drv@ == "tun"@
            ||| drv@ == "tap"@
            ||| drv@ == "nfp"@
            ||| drv@ == "qede"@
            ||| drv@ == "bnxt_en"@
            ||| drv@ == "thunderx"@
            ||| drv@ == "ena"@
        },
        None => false,
    }
}

/// Does the device's driver support the express data path?
pub fn is_xdp_capable(device: &NetworkDevice) -> (r: bool)
    ensures
        r == spec_is_xdp_capable(*device),
{
    match &device.driver {
        Some(drv) => {
            let d = drv.as_str();
            str_eq(d, "i40e") || str_eq(d, "ice") || str_eq(d, "ixgbe") || str_eq(d, "ixgbevf")
                || str_eq(d, "mlx5_core") || str_eq(d, "mlx4_core") || str_eq(d, "virtio_net")
                || str_eq(d, "veth") || str_eq(d, "tun") || str_eq(d, "tap") || str_eq(d, "nfp")
                || str_eq(d, "qede") || str_eq(d, "bnxt_en") || str_eq(d, "thunderx") || str_eq(
                d,
                "ena",
            )
        },
        None => false,
    }
}

/// The device's hardware can serve the framework at all, whatever its
/// current binding state.
pub open spec fn spec_is_capable(d: NetworkDevice, f: Framework) -> bool {
    match f {
        Framework::Dpdk | Framework::Spdk | Framework::Vpp => true,
        Framework::Rdma => spec_is_rdma_capable(d),
        Framework::TcpDirect | Framework::OpenOnload | Framework::EfVi => d.vendor_id@ == "0x1924"@,
        Framework::Xdp => spec_is_xdp_capable(d),
    }
}

/// Can the device's hardware serve the framework?
pub fn is_device_capable(device: &NetworkDevice, framework: Framework) -> (r: bool)
    ensures
        r == spec_is_capable(*device, framework),
{
    match framework {
        Framework::Dpdk | Framework::Spdk | Framework::Vpp => true,
        Framework::Rdma => is_rdma_capable(device),
        Framework::TcpDirect | Framework::OpenOnload | Framework::EfVi => is_solarflare(device),
        Framework::Xdp => is_xdp_capable(device),
    }
}

/// The device can serve the framework right now: capable, and bound the
/// way the framework needs — to the bypass driver or to the kernel.
pub open spec fn spec_is_ready(d: NetworkDevice, f: Framework) -> bool {
    &&& spec_is_capable(d, f)
    &&& match f {
        Framework::Dpdk | Framework::TcpDirect | Framework::Spdk | Framework::Vpp => d.status
            == DeviceStatus::Vfio,
        Framework::Rdma | Framework::OpenOnload | Framework::EfVi | Framework::Xdp => d.status
            == DeviceStatus::Kernel,
    }
}

/// Can the device serve the framework right now?
pub fn is_device_ready(device: &NetworkDevice, framework: Framework) -> (r: bool)
    ensures
        r == spec_is_ready(*device, framework),
{
    if !is_device_capable(device, framework) {
        return false;
    }
    if framework.requires_vfio() {
        device.status == DeviceStatus::Vfio
    } else {
        device.status == DeviceStatus::Kernel
    }
}

/// The reference string an application names the device by: the PCI
/// address for the bypass frameworks, the RDMA device name (resolved by the
/// caller) for RDMA, the interface name for the kernel-stack frameworks.
pub fn get_reference_string(
    device: &NetworkDevice,
    framework: Framework,
    rdma_name: &Option<String>,
) -> (r: Result<String, VfioError>)
    ensures
        match r {
            Ok(s) => match framework {
                Framework::Dpdk | Framework::Spdk | Framework::Vpp | Framework::TcpDirect => s@
                    == device.pci_address@,
                Framework::Rdma => rdma_name matches Some(n) && s@ == n@,
                Framework::OpenOnload | Framework::EfVi | Framework::Xdp => s@
                    == device.interface@,
            },
            Err(e) => {
                &&& framework == Framework::Rdma
                &&& rdma_name is None
                &&& e matches VfioError::DeviceNotFound(a) && a@ == device.pci_address@
            },
        },
{
    match framework {
        Framework::Dpdk | Framework::Spdk | Framework::Vpp | Framework::TcpDirect => Ok(
            device.pci_address.clone(),
        ),
        Framework::Rdma => match rdma_name {
            Some(n) => Ok(n.clone()),
            None => Err(VfioError::DeviceNotFound(device.pci_address.clone())),
        },
        Framework::OpenOnload | Framework::EfVi | Framework::Xdp => Ok(device.interface.clone()),
    }
}

/// The name of the first RDMA device entry whose link reaches `addr`.
pub open spec fn first_rdma_name(
    entries: Seq<(Seq<char>, Option<Seq<char>>)>,
    addr: Seq<char>,
) -> Option<Seq<char>>
    decreases entries.len(),
{
    if entries.len() == 0 {
        None
    } else if entries[0].1 == Some(addr) {
        Some(entries[0].0)
    } else {
        first_rdma_name(entries.drop_first(), addr)
    }
}

/// Find the RDMA device name for a PCI address in a scan of the RDMA class
/// directory: each entry is a device name and the basename of its `device`
/// symlink. No scan at all means the RDMA subsystem is absent.
pub fn get_rdma_device_name(pci_address: &str, scan: &Option<Vec<(String, Option<String>)>>) -> (r:
    Result<String, VfioError>)
    ensures
        match r {
            Ok(n) => {
                &&& scan matches Some(entries)
                &&& first_rdma_name(entries.deep_view(), pci_address@) == Some(n@)
            },
            Err(e) => match scan {
                Some(entries) => {
                    &&& first_rdma_name(entries.deep_view(), pci_address@) is None
                    &&& e matches VfioError::DeviceNotFound(a) && a@ == pci_address@
                },
                None => e matches VfioError::Io(m) && m@
                    == "RDMA subsystem not available (no /sys/class/infiniband)"@,
            },
        },
{
    let entries = match scan {
        Some(entries) => entries,
        None => {
            return Err(
                VfioError::Io("RDMA subsystem not available (no /sys/class/infiniband)".to_owned()),
            );
        },
    };
    let n: usize = entries.len();
    let mut i: usize = 0;
    proof {
        assert(entries.deep_view().skip(0) =~= entries.deep_view());
    }
    while i < n
        invariant
            i <= n,
            n == entries@.len(),
            *scan == Some(*entries),
            first_rdma_name(entries.deep_view(), pci_address@) == first_rdma_name(
                entries.deep_view().skip(i as int),
                pci_address@,
            ),
        decreases n - i,
    {
        let ghost rest = entries.deep_view().skip(i as int);
        proof {
            assert(rest[0] == entries.deep_view()[i as int]);
            assert(rest.drop_first() =~= entries.deep_view().skip(i + 1));
            assert(entries.deep_view()[i as int] == (entries@[i as int].0@,
            entries@[i as int].1.deep_view()));
        }
        let hit = match &entries[i].1 {
            Some(link) => str_eq(link.as_str(), pci_address),
            None => false,
        };
        if hit {
            let name = entries[i].0.clone();
            proof {
                assert(rest[0].1 == Some(pci_address@));
                assert(first_rdma_name(rest, pci_address@) == Some(name@));
                assert(first_rdma_name(entries.deep_view(), pci_address@) == Some(name@));
            }
            return Ok(name);
        }
        proof {
            assert(rest[0].1 != Some(pci_address@));
        }
        i = i + 1;
    }
    proof {
        assert(entries.deep_view().skip(n as int).len() == 0);
    }
    Err(VfioError::DeviceNotFound(pci_address.to_owned()))
}

/// A device paired with its readiness for one framework and the reference
/// string an application would use for it.
#[derive(Debug, Clone)]
pub struct FrameworkDevice {
    pub device: NetworkDevice,
    pub is_ready: bool,
    /// The PCI address for bypass frameworks, the RDMA device name for
    /// RDMA, the interface name for the kernel-stack frameworks; a device
    /// that is not ready, or whose RDMA name cannot be found, falls back to
    /// its PCI address.
    pub reference_string: String,
}

/// The reference string a framework device carries.
pub open spec fn spec_reference_of(
    d: NetworkDevice,
    f: Framework,
    rdma: Seq<(Seq<char>, Option<Seq<char>>)>,
    rdma_present: bool,
) -> Seq<char> {
    if !spec_is_ready(d, f) {
        d.pci_address@
    } else {
        match f {
            Framework::Dpdk | Framework::Spdk | Framework::Vpp | Framework::TcpDirect =>
                d.pci_address@,
            Framework::Rdma => if rdma_present {
                match first_rdma_name(rdma, d.pci_address@) {
                    Some(n) => n,
                    None => d.pci_address@,
                }
            } else {
                d.pci_address@
            },
            Framework::OpenOnload | Framework::EfVi | Framework::Xdp => d.interface@,
        }
    }
}

/// The scan of the RDMA class directory a framework listing consults.
pub open spec fn spec_rdma_scan(scan: Option<Vec<(String, Option<String>)>>) -> Seq<
    (Seq<char>, Option<Seq<char>>),
> {
    match scan {
        Some(entries) => entries.deep_view(),
        None => Seq::empty(),
    }
}

/// Every device capable of serving the framework, in device-list order,
/// each with its readiness and reference string.
pub fn get_capable_devices(
    framework: Framework,
    devices: &Vec<NetworkDevice>,
    rdma_scan: &Option<Vec<(String, Option<String>)>>,
) -> (r: Vec<FrameworkDevice>)
    ensures
        r@.map_values(|fd: FrameworkDevice| fd.device) == devices@.filter(
            |d: NetworkDevice| spec_is_capable(d, framework),
        ),
        forall|k: int|
            #![trigger r@[k]]
            0 <= k < r@.len() ==> r@[k].is_ready == spec_is_ready(r@[k].device, framework)
                && r@[k].reference_string@ == spec_reference_of(
                r@[k].device,
                framework,
                spec_rdma_scan(*rdma_scan),
                rdma_scan is Some,
            ),
{
    let n: usize = devices.len();
    let mut out: Vec<FrameworkDevice> = Vec::new();
    let mut i: usize = 0;
    proof {
        assert(devices@.take(0).filter(|d: NetworkDevice| spec_is_capable(d, framework)) =~= Seq::<
            NetworkDevice,
        >::empty());
        assert(out@.map_values(|fd: FrameworkDevice| fd.device) =~= Seq::<NetworkDevice>::empty());
    }
    while i < n
        invariant
            i <= n,
            n == devices@.len(),
            out@.map_values(|fd: FrameworkDevice| fd.device) == devices@.take(i as int).filter(
                |d: NetworkDevice| spec_is_capable(d, framework),
            ),
            forall|k: int|
                #![trigger out@[k]]
                0 <= k < out@.len() ==> out@[k].is_ready == spec_is_ready(out@[k].device, framework)
                    && out@[k].reference_string@ == spec_reference_of(
                    out@[k].device,
                    framework,
                    spec_rdma_scan(*rdma_scan),
                    rdma_scan is Some,
                ),
        decreases n - i,
    {
        let ghost pred = |d: NetworkDevice| spec_is_capable(d, framework);
        let ghost prefix = devices@.take(i as int);
        let ghost next = devices@.take(i + 1);
        proof {
            assert(next.drop_last() =~= prefix);
            assert(next.last() == devices@[i as int]);
            reveal(Seq::filter);
        }
        let device = &devices[i];
        if is_device_capable(device, framework) {
            let ready = is_device_ready(device, framework);
            let reference_string = if ready {
                match framework {
                    Framework::Rdma => match get_rdma_device_name(
                        device.pci_address.as_str(),
                        rdma_scan,
                    ) {
                        Ok(nm) => nm,
                        Err(_) => device.pci_address.clone(),
                    },
                    Framework::OpenOnload | Framework::EfVi | Framework::Xdp =>
                        device.interface.clone(),
                    _ => device.pci_address.clone(),
                }
            } else {
                device.pci_address.clone()
            };
            let ghost before = out@;
            out.push(
                FrameworkDevice { device: device.snapshot(), is_ready: ready, reference_string },
            );
            proof {
                assert(out@.map_values(|fd: FrameworkDevice| fd.device) =~= before.map_values(
                    |fd: FrameworkDevice| fd.device,
                ).push(devices@[i as int]));
                assert(next.filter(pred) =~= prefix.filter(pred).push(devices@[i as int]));
            }
        } else {
            proof {
                assert(next.filter(pred) =~= prefix.filter(pred));
            }
        }
        i = i + 1;
    }
    proof {
        assert(devices@.take(n as int) =~= devices@);
    }
    out
}

/// Only the devices ready for the framework right now, in device-list
/// order.
pub fn get_available_devices(
    framework: Framework,
    devices: &Vec<NetworkDevice>,
    rdma_scan: &Option<Vec<(String, Option<String>)>>,
) -> (r: Vec<FrameworkDevice>)
    ensures
        r@.map_values(|fd: FrameworkDevice| fd.device) == devices@.filter(
            |d: NetworkDevice| spec_is_ready(d, framework),
        ),
        forall|k: int|
            #![trigger r@[k]]
            0 <= k < r@.len() ==> r@[k].is_ready && r@[k].reference_string@ == spec_reference_of(
                r@[k].device,
                framework,
                spec_rdma_scan(*rdma_scan),
                rdma_scan is Some,
            ),
{
    let n: usize = devices.len();
    let mut out: Vec<FrameworkDevice> = Vec::new();
    let mut i: usize = 0;
    proof {
        assert(devices@.take(0).filter(|d: NetworkDevice| spec_is_ready(d, framework)) =~= Seq::<
            NetworkDevice,
        >::empty());
        assert(out@.map_values(|fd: FrameworkDevice| fd.device) =~= Seq::<NetworkDevice>::empty());
    }
    while i < n
        invariant
            i <= n,
            n == devices@.len(),
            out@.map_values(|fd: FrameworkDevice| fd.device) == devices@.take(i as int).filter(
                |d: NetworkDevice| spec_is_ready(d, framework),
            ),
            forall|k: int|
                #![trigger out@[k]]
                0 <= k < out@.len() ==> out@[k].is_ready && out@[k].reference_string@
                    == spec_reference_of(
                    out@[k].device,
                    framework,
                    spec_rdma_scan(*rdma_scan),
                    rdma_scan is Some,
                ),
        decreases n - i,
    {
        let ghost pred = |d: NetworkDevice| spec_is_ready(d, framework);
        let ghost prefix = devices@.take(i as int);
        let ghost next = devices@.take(i + 1);
        proof {
            assert(next.drop_last() =~= prefix);
            assert(next.last() == devices@[i as int]);
            reveal(Seq::filter);
        }
        let device = &devices[i];
        if is_device_ready(device, framework) {
            let reference_string = match framework {
                Framework::Rdma => match get_rdma_device_name(
                    device.pci_address.as_str(),
                    rdma_scan,
                ) {
                    Ok(nm) => nm,
                    Err(_) => device.pci_address.clone(),
                },
                Framework::OpenOnload | Framework::EfVi | Framework::Xdp =>
                    device.interface.clone(),
                _ => device.pci_address.clone(),
            };
            let ghost before = out@;
            out.push(
                FrameworkDevice { device: device.snapshot(), is_ready: true, reference_string },
            );
            proof {
                assert(out@.map_values(|fd: FrameworkDevice| fd.device) =~= before.map_values(
                    |fd: FrameworkDevice| fd.device,
                ).push(devices@[i as int]));
                assert(next.filter(pred) =~= prefix.filter(pred).push(devices@[i as int]));
            }
        } else {
            proof {
                assert(next.filter(pred) =~= prefix.filter(pred));
            }
        }
        i = i + 1;
    }
    proof {
        assert(devices@.take(n as int) =~= devices@);
    }
    out
}

} // verus!
