//! The persisted configuration: which interfaces belong to the bypass
//! driver, which to the kernel, and the name-to-address mapping store. The
//! values here are pure; reading and writing the configuration file is the
//! unverified shell's work.

use vstd::prelude::*;
use crate::device::NetworkDevice;
use crate::mapping::Mappings;

verus! {

/// The whole configuration document.
#[derive(Debug)]
pub struct Config {
    pub devices: DeviceConfig,
    pub options: Options,
}

/// The device assignments and the mapping store.
#[derive(Debug)]
pub struct DeviceConfig {
    /// Interfaces to hand to the bypass driver.
    pub vfio: Vec<String>,
    /// Interfaces to leave with the kernel.
    pub kernel: Vec<String>,
    /// Last-known `name -> address` pairs; they survive a device's
    /// disappearance from the live namespace.
    pub pci_mappings: Mappings,
}

/// Behaviour toggles.
#[derive(Debug, Clone, Copy, PartialEq, Eq, Structural)]
pub struct Options {
    pub set_permissions: bool,
    pub auto_load_module: bool,
}

/// The default for options that are on unless switched off.
pub fn default_true() -> (r: bool)
    ensures
        r,
{
    true
}

impl Default for Config {
    /// An empty configuration with both options on.
    fn default() -> (r: Config)
        ensures
            r.devices.vfio@.len() == 0,
            r.devices.kernel@.len() == 0,
            r.devices.pci_mappings.wf(),
            r.devices.pci_mappings.as_map() == Map::<Seq<char>, Seq<char>>::empty(),
            r.options == (Options { set_permissions: true, auto_load_module: true }),
    {
        Config {
            devices: DeviceConfig {
                vfio: Vec::new(),
                kernel: Vec::new(),
                pci_mappings: Mappings::new(),
            },
            options: Options { set_permissions: true, auto_load_module: true },
        }
    }
}

/// Where the configuration file lives.
pub fn get_config_path() -> (r: String)
    ensures
        r@ == "/etc/vfio-tool/config.toml"@,
{
    let mut s = String::new();
    s.append("/etc/vfio-tool/config.toml");
    proof {
        assert(s@ =~= "/etc/vfio-tool/config.toml"@);
    }
    s
}

/// The address of the first record in `devices` carrying `name` as its
/// interface.
pub open spec fn first_device_addr(devices: Seq<NetworkDevice>, name: Seq<char>) -> Option<
    Seq<char>,
>
    decreases devices.len(),
{
    if devices.len() == 0 {
        None
    } else if devices[0].interface@ == name {
        Some(devices[0].pci_address@)
    } else {
        first_device_addr(devices.drop_first(), name)
    }
}

/// Look `name` up in the current device list.
pub fn device_addr_for(devices: &Vec<NetworkDevice>, name: &str) -> (r: Option<String>)
    ensures
        r.deep_view() == first_device_addr(devices@, name@),
{
    let n: usize = devices.len();
    let mut i: usize = 0;
    proof {
        assert(devices@.skip(0) =~= devices@);
    }
    while i < n
        invariant
            i <= n,
            n == devices@.len(),
            first_device_addr(devices@, name@) == first_device_addr(
                devices@.skip(i as int),
                name@,
            ),
        decreases n - i,
    {
        let ghost rest = devices@.skip(i as int);
        proof {
            assert(rest[0] == devices@[i as int]);
            assert(rest.drop_first() =~= devices@.skip(i + 1));
        }
        if crate::strings::str_eq(devices[i].interface.as_str(), name) {
            let a = devices[i].pci_address.clone();
            proof {
                assert(Some(a).deep_view() == Some(a@));
            }
            return Some(a);
        }
        assert(devices@[i as int].interface@ != name@);
        i = i + 1;
    }
    proof {
        assert(devices@.skip(n as int).len() == 0);
    }
    None
}

/// The mapping updates a save makes: for each listed name that a current
/// device carries, its address; names the device list does not show are
/// left to whatever the store already holds.
pub open spec fn spec_updates(
    names: Seq<Seq<char>>,
    devices: Seq<NetworkDevice>,
) -> Map<Seq<char>, Seq<char>>
    decreases names.len(),
{
    if names.len() == 0 {
        Map::empty()
    } else {
        let rest = spec_updates(names.drop_last(), devices);
        match first_device_addr(devices, names.last()) {
            Some(a) => rest.insert(names.last(), a),
            None => rest,
        }
    }
}

/// Build the configuration that a save writes: the given assignments, the
/// existing mappings refreshed with the address of every listed interface
/// that the current device list shows, and both options as given.
fn save_config_with_options(
    vfio: Vec<String>,
    kernel: Vec<String>,
    existing: &Mappings,
    devices: &Vec<NetworkDevice>,
    set_permissions: bool,
) -> (r: Config)
    requires
        existing.wf(),
    ensures
        r.devices.vfio == vfio,
        r.devices.kernel == kernel,
        r.devices.pci_mappings.wf(),
        r.devices.pci_mappings.as_map() == existing.as_map().union_prefer_right(
            spec_updates(vfio.deep_view() + kernel.deep_view(), devices@),
        ),
        r.options == (Options { set_permissions, auto_load_module: true }),
{
    let mut m = existing.duplicate();
    let ghost all_names = vfio.deep_view() + kernel.deep_view();
    proof {
        assert(m.as_map() =~= existing.as_map().union_prefer_right(
            spec_updates(all_names.take(0), devices@),
        )) by {
            assert(spec_updates(all_names.take(0), devices@) =~= Map::<Seq<char>, Seq<char>>::empty());
        }
    }
    let vn: usize = vfio.len();
    let mut i: usize = 0;
    while i < vn
        invariant
            i <= vn,
            vn == vfio@.len(),
            m.wf(),
            all_names == vfio.deep_view() + kernel.deep_view(),
            m.as_map() == existing.as_map().union_prefer_right(
                spec_updates(all_names.take(i as int), devices@),
            ),
        decreases vn - i,
    {
        proof {
            assert(all_names.take(i + 1).drop_last() =~= all_names.take(i as int));
            assert(all_names.take(i + 1).last() == vfio.deep_view()[i as int]);
            assert(vfio.deep_view()[i as int] == vfio@[i as int]@);
        }
        match device_addr_for(devices, vfio[i].as_str()) {
            Some(a) => {
                m.insert(vfio[i].clone(), a);
                proof {
                    assert(m.as_map() =~= existing.as_map().union_prefer_right(
                        spec_updates(all_names.take(i + 1), devices@),
                    ));
                }
            },
            None => {
                proof {
                    assert(spec_updates(all_names.take(i + 1), devices@) == spec_updates(
                        all_names.take(i as int),
                        devices@,
                    ));
                }
            },
        }
        i = i + 1;
    }
    let kn: usize = kernel.len();
    let mut k: usize = 0;
    proof {
        assert(all_names.take(vn as int) =~= vfio.deep_view());
    }
    while k < kn
        invariant
            k <= kn,
            kn == kernel@.len(),
            vn == vfio@.len(),
            m.wf(),
            all_names == vfio.deep_view() + kernel.deep_view(),
            m.as_map() == existing.as_map().union_prefer_right(
                spec_updates(all_names.take(vn + k), devices@),
            ),
        decreases kn - k,
    {
        proof {
            assert(all_names.take(vn + k + 1).drop_last() =~= all_names.take(vn + k));
            assert(all_names.take(vn + k + 1).last() == kernel.deep_view()[k as int]);
            assert(kernel.deep_view()[k as int] == kernel@[k as int]@);
        }
        match device_addr_for(devices, kernel[k].as_str()) {
            Some(a) => {
                m.insert(kernel[k].clone(), a);
                proof {
                    assert(m.as_map() =~= existing.as_map().union_prefer_right(
                        spec_updates(all_names.take(vn + k + 1), devices@),
                    ));
                }
            },
            None => {
                proof {
                    assert(spec_updates(all_names.take(vn + k + 1), devices@) == spec_updates(
                        all_names.take(vn + k),
                        devices@,
                    ));
                }
            },
        }
        k = k + 1;
    }
    proof {
        assert(all_names.take(vn + kn) =~= all_names);
    }
    Config {
        devices: DeviceConfig { vfio, kernel, pci_mappings: m },
        options: Options { set_permissions, auto_load_module: true },
    }
}

/// Build the configuration for the given assignments with permissions on —
/// what a plain save writes.
pub fn save_config(
    vfio: Vec<String>,
    kernel: Vec<String>,
    existing: &Mappings,
    devices: &Vec<NetworkDevice>,
) -> (r: Config)
    requires
        existing.wf(),
    ensures
        r.devices.vfio == vfio,
        r.devices.kernel == kernel,
        r.devices.pci_mappings.wf(),
        r.devices.pci_mappings.as_map() == existing.as_map().union_prefer_right(
            spec_updates(vfio.deep_view() + kernel.deep_view(), devices@),
        ),
        r.options == (Options { set_permissions: true, auto_load_module: true }),
{
    save_config_with_options(vfio, kernel, existing, devices, true)
}

/// The interface names of a device list, in order.
pub open spec fn interfaces_of(devices: Seq<NetworkDevice>) -> Seq<Seq<char>> {
    devices.map_values(|d: NetworkDevice| d.interface@)
}

/// Does some record in `devices` carry `name` as its interface?
pub fn has_interface(devices: &Vec<NetworkDevice>, name: &str) -> (r: bool)
    ensures
        r == interfaces_of(devices@).contains(name@),
{
    let n: usize = devices.len();
    let mut i: usize = 0;
    while i < n
        invariant
            i <= n,
            n == devices@.len(),
            forall|j: int| 0 <= j < i ==> devices@[j].interface@ != name@,
        decreases n - i,
    {
        if crate::strings::str_eq(devices[i].interface.as_str(), name) {
            proof {
                assert(interfaces_of(devices@)[i as int] == name@);
            }
            return true;
        }
        assert(devices@[i as int].interface@ != name@);
        i = i + 1;
    }
    proof {
        if interfaces_of(devices@).contains(name@) {
            let j = choose|j: int| 0 <= j < interfaces_of(devices@).len() && interfaces_of(
                devices@,
            )[j] == name@;
            assert(devices@[j].interface@ == name@);
        }
    }
    false
}

/// Does `v` hold `name`?
pub fn contains_name(v: &Vec<String>, name: &str) -> (r: bool)
    ensures
        r == v.deep_view().contains(name@),
{
    let n: usize = v.len();
    let mut i: usize = 0;
    while i < n
        invariant
            i <= n,
            n == v@.len(),
            forall|j: int| 0 <= j < i ==> v@[j]@ != name@,
        decreases n - i,
    {
        if crate::strings::str_eq(v[i].as_str(), name) {
            proof {
                assert(v.deep_view()[i as int] == name@);
            }
            return true;
        }
        assert(v@[i as int]@ != name@);
        i = i + 1;
    }
    proof {
        if v.deep_view().contains(name@) {
            let j = choose|j: int| 0 <= j < v.deep_view().len() && v.deep_view()[j] == name@;
            assert(v@[j]@ == name@);
        }
    }
    false
}

/// What holding a configuration against the current hardware found.
#[derive(Debug)]
pub struct ValidationReport {
    /// Configured bypass interfaces that no current device carries.
    pub missing_vfio: Vec<String>,
    /// Configured kernel interfaces that no current device carries.
    pub missing_kernel: Vec<String>,
    /// Current interfaces that the configuration does not mention.
    pub unconfigured: Vec<String>,
}

impl ValidationReport {
    /// The configuration matches the hardware: nothing missing, nothing
    /// unmentioned.
    pub fn is_valid(&self) -> (r: bool)
        ensures
            r == (self.missing_vfio@.len() == 0 && self.missing_kernel@.len() == 0
                && self.unconfigured@.len() == 0),
    {
        self.missing_vfio.len() == 0 && self.missing_kernel.len() == 0 && self.unconfigured.len()
            == 0
    }
}

/// Hold a configuration against the current device list: which configured
/// interfaces are missing from the hardware, and which current interfaces
/// the configuration does not mention.
pub fn validate_config(cfg: &Config, devices: &Vec<NetworkDevice>) -> (r: ValidationReport)
    ensures
        r.missing_vfio.deep_view() == cfg.devices.vfio.deep_view().filter(
            |n: Seq<char>| !interfaces_of(devices@).contains(n),
        ),
        r.missing_kernel.deep_view() == cfg.devices.kernel.deep_view().filter(
            |n: Seq<char>| !interfaces_of(devices@).contains(n),
        ),
        r.unconfigured.deep_view() == interfaces_of(devices@).filter(
            |n: Seq<char>|
                !cfg.devices.vfio.deep_view().contains(n) && !cfg.devices.kernel.deep_view()
                    .contains(n),
        ),
{
    let missing_vfio = missing_from(&cfg.devices.vfio, devices);
    let missing_kernel = missing_from(&cfg.devices.kernel, devices);
    let n: usize = devices.len();
    let mut unconfigured: Vec<String> = Vec::new();
    let mut i: usize = 0;
    proof {
        assert(interfaces_of(devices@).take(0).filter(
            |n: Seq<char>|
                !cfg.devices.vfio.deep_view().contains(n) && !cfg.devices.kernel.deep_view()
                    .contains(n),
        ) =~= Seq::<Seq<char>>::empty());
        assert(unconfigured.deep_view() =~= Seq::<Seq<char>>::empty());
    }
    while i < n
        invariant
            i <= n,
            n == devices@.len(),
            unconfigured.deep_view() == interfaces_of(devices@).take(i as int).filter(
                |n: Seq<char>|
                    !cfg.devices.vfio.deep_view().contains(n) && !cfg.devices.kernel.deep_view()
                        .contains(n),
            ),
        decreases n - i,
    {
        let ghost pred = |n: Seq<char>|
            !cfg.devices.vfio.deep_view().contains(n) && !cfg.devices.kernel.deep_view().contains(
                n,
            );
        let ghost prefix = interfaces_of(devices@).take(i as int);
        let ghost next = interfaces_of(devices@).take(i + 1);
        proof {
            assert(next.drop_last() =~= prefix);
            assert(next.last() == devices@[i as int].interface@);
            reveal(Seq::filter);
        }
        let iface = &devices[i].interface;
        if !contains_name(&cfg.devices.vfio, iface.as_str()) && !contains_name(
            &cfg.devices.kernel,
            iface.as_str(),
        ) {
            let ghost before = unconfigured.deep_view();
            unconfigured.push(iface.clone());
            proof {
                assert(unconfigured.deep_view() =~= before.push(devices@[i as int].interface@));
                assert(next.filter(pred) =~= prefix.filter(pred).push(
                    devices@[i as int].interface@,
                ));
            }
        } else {
            proof {
                assert(next.filter(pred) =~= prefix.filter(pred));
            }
        }
        i = i + 1;
    }
    proof {
        assert(interfaces_of(devices@).take(n as int) =~= interfaces_of(devices@));
    }
    ValidationReport { missing_vfio, missing_kernel, unconfigured }
}

/// The names of `configured` that no current device carries, in order.
fn missing_from(configured: &Vec<String>, devices: &Vec<NetworkDevice>) -> (r: Vec<String>)
    ensures
        r.deep_view() == configured.deep_view().filter(
            |n: Seq<char>| !interfaces_of(devices@).contains(n),
        ),
{
    let n: usize = configured.len();
    let mut out: Vec<String> = Vec::new();
    let mut i: usize = 0;
    proof {
        assert(configured.deep_view().take(0).filter(
            |n: Seq<char>| !interfaces_of(devices@).contains(n),
        ) =~= Seq::<Seq<char>>::empty());
        assert(out.deep_view() =~= Seq::<Seq<char>>::empty());
    }
    while i < n
        invariant
            i <= n,
            n == configured@.len(),
            out.deep_view() == configured.deep_view().take(i as int).filter(
                |n: Seq<char>| !interfaces_of(devices@).contains(n),
            ),
        decreases n - i,
    {
        let ghost pred = |n: Seq<char>| !interfaces_of(devices@).contains(n);
        let ghost prefix = configured.deep_view().take(i as int);
        let ghost next = configured.deep_view().take(i + 1);
        proof {
            assert(next.drop_last() =~= prefix);
            assert(next.last() == configured@[i as int]@);
            reveal(Seq::filter);
        }
        if !has_interface(devices, configured[i].as_str()) {
            let ghost before = out.deep_view();
            out.push(configured[i].clone());
            proof {
                assert(out.deep_view() =~= before.push(configured@[i as int]@));
                assert(next.filter(pred) =~= prefix.filter(pred).push(configured@[i as int]@));
            }
        } else {
            proof {
                assert(next.filter(pred) =~= prefix.filter(pred));
            }
        }
        i = i + 1;
    }
    proof {
        assert(configured.deep_view().take(n as int) =~= configured.deep_view());
    }
    out
}

} // verus!
