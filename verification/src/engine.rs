//! The binding engine: the state machine that moves a device between
//! `Kernel`, `Vfio` and `Unbound`. The engine is pure — it decides which
//! pseudo-file writes to issue and how to interpret their outcomes; a thin
//! unverified shell performs the writes and hands the outcomes back.

use vstd::prelude::*;
use crate::addr::spec_is_pci_address;
use crate::addr::is_pci_address;
use crate::device::{DeviceStatus, NetworkDevice, PciDeviceEntry, spec_status_of};
use crate::error::VfioError;
use crate::mapping::{map_of, Mappings};
use crate::resolve::{spec_target_address, UnbindTarget};
use crate::strings::{
    spec_starts_with, spec_strip_0x, spec_trim, starts_with, str_eq, strip_0x, trim_ws,
};

verus! {

/// Seconds to wait after a reprobe before the kernel namespace reliably
/// shows the new driver and interface names.
pub const SETTLE_SECONDS: u64 = 2;

/// One pseudo-file write request against the device tree.
#[derive(Debug, Clone)]
pub enum PseudoWrite {
    /// Ask the device's current driver to release it.
    DetachDriver { address: String },
    /// Register a vendor/device id pair (bare hex, no `0x`) with the bypass
    /// driver's `new_id` mechanism.
    RegisterId { vendor: String, device: String },
    /// Ask the bypass driver to claim the device.
    AttachBypass { address: String },
    /// Clear a forced-driver selection left on the device.
    ClearOverride { address: String },
    /// Ask the kernel to pick a driver for the device afresh.
    Reprobe { address: String },
}

/// `w` detaches the driver of `addr`.
pub open spec fn is_detach_for(w: PseudoWrite, addr: Seq<char>) -> bool {
    w matches PseudoWrite::DetachDriver { address } && address@ == addr
}

/// `w` registers the bare-hex pair derived from `vendor` and `device`.
pub open spec fn is_register_for(w: PseudoWrite, vendor: Seq<char>, device: Seq<char>) -> bool {
    w matches PseudoWrite::RegisterId { vendor: v, device: d } && v@ == spec_strip_0x(vendor) && d@
        == spec_strip_0x(device)
}

/// `w` attaches the bypass driver to `addr`.
pub open spec fn is_attach_for(w: PseudoWrite, addr: Seq<char>) -> bool {
    w matches PseudoWrite::AttachBypass { address } && address@ == addr
}

/// `w` clears the driver override of `addr`.
pub open spec fn is_clear_override_for(w: PseudoWrite, addr: Seq<char>) -> bool {
    w matches PseudoWrite::ClearOverride { address } && address@ == addr
}

/// `w` reprobes `addr`.
pub open spec fn is_reprobe_for(w: PseudoWrite, addr: Seq<char>) -> bool {
    w matches PseudoWrite::Reprobe { address } && address@ == addr
}

impl PseudoWrite {
    /// The path the write goes to, relative to the filesystem root.
    pub fn path(&self) -> (r: String)
        ensures
            match self {
                PseudoWrite::DetachDriver { address } => r@ == "/sys/bus/pci/devices/"@ + address@
                    + "/driver/unbind"@,
                PseudoWrite::RegisterId { .. } => r@ == "/sys/bus/pci/drivers/vfio-pci/new_id"@,
                PseudoWrite::AttachBypass { .. } => r@ == "/sys/bus/pci/drivers/vfio-pci/bind"@,
                PseudoWrite::ClearOverride { address } => r@ == "/sys/bus/pci/devices/"@ + address@
                    + "/driver_override"@,
                PseudoWrite::Reprobe { .. } => r@ == "/sys/bus/pci/drivers_probe"@,
            },
    {
        match self {
            PseudoWrite::DetachDriver { address } => {
                let mut s = String::new();
                s.append("/sys/bus/pci/devices/");
                s.append(address.as_str());
                s.append("/driver/unbind");
                proof {
                    assert(s@ =~= "/sys/bus/pci/devices/"@ + address@ + "/driver/unbind"@);
                }
                s
            },
            PseudoWrite::RegisterId { .. } => {
                let mut s = String::new();
                s.append("/sys/bus/pci/drivers/vfio-pci/new_id");
                proof {
                    assert(s@ =~= "/sys/bus/pci/drivers/vfio-pci/new_id"@);
                }
                s
            },
            PseudoWrite::AttachBypass { .. } => {
                let mut s = String::new();
                s.append("/sys/bus/pci/drivers/vfio-pci/bind");
                proof {
                    assert(s@ =~= "/sys/bus/pci/drivers/vfio-pci/bind"@);
                }
                s
            },
            PseudoWrite::ClearOverride { address } => {
                let mut s = String::new();
                s.append("/sys/bus/pci/devices/");
                s.append(address.as_str());
                s.append("/driver_override");
                proof {
                    assert(s@ =~= "/sys/bus/pci/devices/"@ + address@ + "/driver_override"@);
                }
                s
            },
            PseudoWrite::Reprobe { .. } => {
                let mut s = String::new();
                s.append("/sys/bus/pci/drivers_probe");
                proof {
                    assert(s@ =~= "/sys/bus/pci/drivers_probe"@);
                }
                s
            },
        }
    }

    /// The bytes to write: the address for driver operations, the bare-hex
    /// id pair for a registration, a blank line for an override clear.
    pub fn payload(&self) -> (r: String)
        ensures
            match self {
                PseudoWrite::DetachDriver { address } => r@ == address@,
                PseudoWrite::RegisterId { vendor, device } => r@ == vendor@ + " "@ + device@,
                PseudoWrite::AttachBypass { address } => r@ == address@,
                PseudoWrite::ClearOverride { .. } => r@ == "\n"@,
                PseudoWrite::Reprobe { address } => r@ == address@,
            },
    {
        match self {
            PseudoWrite::DetachDriver { address } => address.clone(),
            PseudoWrite::RegisterId { vendor, device } => {
                let mut s = vendor.clone();
                s.append(" ");
                s.append(device.as_str());
                s
            },
            PseudoWrite::AttachBypass { address } => address.clone(),
            PseudoWrite::ClearOverride { .. } => {
                let mut s = String::new();
                s.append("\n");
                proof {
                    assert(s@ =~= "\n"@);
                }
                s
            },
            PseudoWrite::Reprobe { address } => address.clone(),
        }
    }
}

/// The writes a bind of one device takes.
#[derive(Debug, Clone)]
pub enum BindPlan {
    /// The device is already held by the bypass driver: succeed with no
    /// pseudo-file write at all.
    AlreadyBound,
    /// Detach the current driver if one is attached (failures tolerated),
    /// register the id pair (failures tolerated), then attach.
    Steps { detach: Option<PseudoWrite>, register: PseudoWrite, attach: PseudoWrite },
}

/// Plan the writes that bind `dev` to the bypass driver. A device already
/// bypass-bound gets an empty plan: binding is idempotent and issues no
/// write for it.
pub fn plan_bind(dev: &NetworkDevice) -> (r: BindPlan)
    ensures
        (r is AlreadyBound) <==> dev.status == DeviceStatus::Vfio,
        r matches BindPlan::Steps { detach, register, attach } ==> {
            &&& match detach {
                Some(w) => dev.driver is Some && is_detach_for(w, dev.pci_address@),
                None => dev.driver is None,
            }
            &&& is_register_for(register, dev.vendor_id@, dev.device_id@)
            &&& is_attach_for(attach, dev.pci_address@)
        },
{
    if dev.is_vfio_bound() {
        return BindPlan::AlreadyBound;
    }
    let detach = match &dev.driver {
        Some(_) => Some(PseudoWrite::DetachDriver { address: dev.pci_address.clone() }),
        None => None,
    };
    let register = PseudoWrite::RegisterId {
        vendor: strip_0x(dev.vendor_id.as_str()),
        device: strip_0x(dev.device_id.as_str()),
    };
    let attach = PseudoWrite::AttachBypass { address: dev.pci_address.clone() };
    BindPlan::Steps { detach, register, attach }
}

/// What performing one pseudo-file write produced.
#[derive(Debug, Clone, Copy, PartialEq, Eq, Structural)]
pub enum WriteOutcome {
    /// The write went through.
    Done,
    /// The write was refused with a device-busy error.
    Busy,
    /// The write failed in any other way.
    Failed,
}

/// Interpret the outcome of the attach write. A busy refusal is re-checked
/// against the device's current driver: registration can race with the
/// kernel's auto-attach, so a device that meanwhile landed on the bypass
/// driver counts as success; busy with anything else is a hard failure.
pub fn attach_result(address: &str, outcome: WriteOutcome, now_vfio: bool) -> (r: Result<
    (),
    VfioError,
>)
    ensures
        (r is Ok) <==> (outcome == WriteOutcome::Done || (outcome == WriteOutcome::Busy
            && now_vfio)),
        outcome == WriteOutcome::Busy && !now_vfio ==> (r matches Err(VfioError::DeviceInUse(a))
            && a@ == address@),
        outcome == WriteOutcome::Failed ==> (r matches Err(VfioError::Io(m)) && m@
            == "Failed to bind "@ + address@ + " to vfio-pci"@),
{
    match outcome {
        WriteOutcome::Done => Ok(()),
        WriteOutcome::Busy => {
            if now_vfio {
                Ok(())
            } else {
                Err(VfioError::DeviceInUse(address.to_owned()))
            }
        },
        WriteOutcome::Failed => {
            let mut m = String::new();
            m.append("Failed to bind ");
            m.append(address);
            m.append(" to vfio-pci");
            proof {
                assert(m@ =~= "Failed to bind "@ + address@ + " to vfio-pci"@);
            }
            Err(VfioError::Io(m))
        },
    }
}

/// A batch of identifiers to bind, processed strictly in order. The batch
/// aborts on the first hard failure, but keeps every name-to-address pair
/// committed by the items that already succeeded: those are flushed to the
/// store whatever happens later.
pub struct BindBatch {
    idents: Vec<String>,
    next: usize,
    discovered: Mappings,
    failure: Option<VfioError>,
}

impl BindBatch {
    /// The identifiers the batch was created with.
    pub closed spec fn targets(self) -> Seq<Seq<char>> {
        self.idents.deep_view()
    }

    /// How many items have completed successfully.
    pub closed spec fn done_count(self) -> int {
        self.next as int
    }

    /// The mappings committed so far.
    pub closed spec fn committed(self) -> Map<Seq<char>, Seq<char>> {
        self.discovered.as_map()
    }

    /// A hard failure has aborted the batch.
    pub closed spec fn aborted(self) -> bool {
        self.failure is Some
    }

    /// The error that aborted the batch, if any.
    pub closed spec fn spec_failure(self) -> Option<VfioError> {
        self.failure
    }

    /// The batch is well formed.
    pub closed spec fn wf(self) -> bool {
        self.next <= self.idents.len() && self.discovered.wf()
    }

    /// The identifier to process next: none once every item is done — or
    /// the batch has aborted, which stops the remaining items for good.
    pub open spec fn spec_current(self) -> Option<Seq<char>> {
        if self.aborted() || self.done_count() >= self.targets().len() {
            None
        } else {
            Some(self.targets()[self.done_count()])
        }
    }

    /// Start a batch over `idents`.
    pub fn new(idents: Vec<String>) -> (r: BindBatch)
        ensures
            r.wf(),
            r.targets() == idents.deep_view(),
            r.done_count() == 0,
            !r.aborted(),
            r.committed() == Map::<Seq<char>, Seq<char>>::empty(),
    {
        BindBatch { idents, next: 0, discovered: Mappings::new(), failure: None }
    }

    /// The identifier to process next.
    pub fn current(&self) -> (r: Option<String>)
        requires
            self.wf(),
        ensures
            r.deep_view() == self.spec_current(),
    {
        if self.failure.is_some() || self.next >= self.idents.len() {
            None
        } else {
            let s = self.idents[self.next].clone();
            proof {
                assert(Some(s).deep_view() == Some(s@));
                assert(self.targets()[self.done_count()] == s@);
            }
            Some(s)
        }
    }

    /// Record that the current item succeeded at `addr`; when it was reached
    /// through a live interface name, commit that name for later lookups.
    pub fn record_success(&mut self, name: Option<&String>, addr: &String)
        requires
            old(self).wf(),
            old(self).spec_current() is Some,
        ensures
            final(self).wf(),
            final(self).targets() == old(self).targets(),
            !final(self).aborted(),
            final(self).done_count() == old(self).done_count() + 1,
            final(self).committed() == match name {
                Some(n) => old(self).committed().insert(n@, addr@),
                None => old(self).committed(),
            },
    {
        match name {
            Some(n) => self.discovered.insert(n.clone(), addr.clone()),
            None => (),
        }
        self.next = self.next + 1;
    }

    /// Record a hard failure: the batch aborts, nothing further is offered,
    /// and every committed mapping is kept.
    pub fn record_failure(&mut self, err: VfioError)
        requires
            old(self).wf(),
        ensures
            final(self).wf(),
            final(self).targets() == old(self).targets(),
            final(self).aborted(),
            final(self).spec_failure() == Some(err),
            final(self).done_count() == old(self).done_count(),
            final(self).committed() == old(self).committed(),
    {
        self.failure = Some(err);
    }

    /// Whether the batch is finished, by completion or by abort.
    pub fn is_done(&self) -> (r: bool)
        requires
            self.wf(),
        ensures
            r == (self.spec_current() is None),
    {
        self.failure.is_some() || self.next >= self.idents.len()
    }

    /// The committed mappings, to merge into the store.
    pub fn discovered(&self) -> (r: &Mappings)
        ensures
            r.as_map() == self.committed(),
            self.wf() ==> r.wf(),
    {
        &self.discovered
    }

    /// The failure that aborted the batch, if any.
    pub fn failure(&self) -> (r: &Option<VfioError>)
        ensures
            *r == self.spec_failure(),
    {
        &self.failure
    }
}

/// Fail-fast: once a batch has aborted, no identifier is ever offered again
/// — the remaining items are never attempted — while the mappings committed
/// by the items that succeeded stay committed (aborting leaves `committed`
/// untouched, and nothing ever removes a committed pair).
pub proof fn lemma_aborted_batch_offers_no_work(b: BindBatch)
    requires
        b.aborted(),
    ensures
        b.spec_current() is None,
{
}

/// A fresh look at one address: whether the device directory exists, and
/// the basename of its driver symlink. State is always re-read, never
/// trusted from an earlier record: other actors rebind devices concurrently.
#[derive(Debug, Clone)]
pub struct AddrObservation {
    pub exists: bool,
    pub driver: Option<String>,
}

/// What an unbind of one device does.
#[derive(Debug, Clone)]
pub enum UnbindDecision {
    /// The bypass driver holds the device: write one detach request.
    Detach(PseudoWrite),
    /// The device is not bypass-bound: succeed without any detach write.
    NoOpNotBound,
    /// The device directory is gone: nothing to detach, succeed.
    NoOpAbsent,
}

/// Decide the unbind step for a resolved target against a fresh observation
/// of its address. A detach is written exactly when the bypass driver holds
/// the device now; any other state is a successful no-op — except an
/// address recovered from the store that no longer exists in the system.
pub fn unbind_decision(target: &UnbindTarget, obs: &AddrObservation) -> (r: Result<
    UnbindDecision,
    VfioError,
>)
    ensures
        match r {
            Ok(UnbindDecision::Detach(w)) => {
                &&& obs.exists
                &&& spec_status_of(obs.driver.deep_view()) == DeviceStatus::Vfio
                &&& is_detach_for(w, spec_target_address(*target))
            },
            Ok(UnbindDecision::NoOpNotBound) => obs.exists && spec_status_of(obs.driver.deep_view())
                != DeviceStatus::Vfio,
            Ok(UnbindDecision::NoOpAbsent) => !obs.exists && !(target is StoredAddress),
            Err(e) => {
                &&& !obs.exists
                &&& target is StoredAddress
                &&& e matches VfioError::DeviceNotFound(a) && a@ == spec_target_address(*target)
            },
        },
{
    let address: String = match target {
        UnbindTarget::DirectAddress(a) => a.clone(),
        UnbindTarget::LiveDevice(d) => d.pci_address.clone(),
        UnbindTarget::StoredAddress(a) => a.clone(),
    };
    if !obs.exists {
        return match target {
            UnbindTarget::StoredAddress(_) => Err(VfioError::DeviceNotFound(address)),
            _ => Ok(UnbindDecision::NoOpAbsent),
        };
    }
    let bypass_bound = match &obs.driver {
        Some(d) => str_eq(d.as_str(), "vfio-pci"),
        None => false,
    };
    if bypass_bound {
        Ok(UnbindDecision::Detach(PseudoWrite::DetachDriver { address }))
    } else {
        Ok(UnbindDecision::NoOpNotBound)
    }
}

/// A batch of identifiers to unbind, processed strictly in order, aborting
/// on the first hard failure. The addresses of the items that completed are
/// collected for the reprobe phase that follows the batch.
pub struct UnbindBatch {
    idents: Vec<String>,
    next: usize,
    addresses: Vec<String>,
    failure: Option<VfioError>,
}

impl UnbindBatch {
    /// The identifiers the batch was created with.
    pub closed spec fn targets(self) -> Seq<Seq<char>> {
        self.idents.deep_view()
    }

    /// How many items have completed.
    pub closed spec fn done_count(self) -> int {
        self.next as int
    }

    /// The addresses collected from completed items, in order.
    pub closed spec fn collected(self) -> Seq<Seq<char>> {
        self.addresses.deep_view()
    }

    /// A hard failure has aborted the batch.
    pub closed spec fn aborted(self) -> bool {
        self.failure is Some
    }

    /// The error that aborted the batch, if any.
    pub closed spec fn spec_failure(self) -> Option<VfioError> {
        self.failure
    }

    /// The batch is well formed: one collected address per completed item.
    pub closed spec fn wf(self) -> bool {
        self.next <= self.idents.len() && self.addresses.len() == self.next
    }

    /// The identifier to process next: none once every item is done or the
    /// batch has aborted.
    pub open spec fn spec_current(self) -> Option<Seq<char>> {
        if self.aborted() || self.done_count() >= self.targets().len() {
            None
        } else {
            Some(self.targets()[self.done_count()])
        }
    }

    /// Start a batch over `idents`.
    pub fn new(idents: Vec<String>) -> (r: UnbindBatch)
        ensures
            r.wf(),
            r.targets() == idents.deep_view(),
            r.done_count() == 0,
            !r.aborted(),
            r.collected() == Seq::<Seq<char>>::empty(),
    {
        let r = UnbindBatch { idents, next: 0, addresses: Vec::new(), failure: None };
        proof {
            assert(r.collected() =~= Seq::<Seq<char>>::empty());
        }
        r
    }

    /// The identifier to process next.
    pub fn current(&self) -> (r: Option<String>)
        requires
            self.wf(),
        ensures
            r.deep_view() == self.spec_current(),
    {
        if self.failure.is_some() || self.next >= self.idents.len() {
            None
        } else {
            let s = self.idents[self.next].clone();
            proof {
                assert(Some(s).deep_view() == Some(s@));
                assert(self.targets()[self.done_count()] == s@);
            }
            Some(s)
        }
    }

    /// Record that the current item completed at `addr`.
    pub fn record_done(&mut self, addr: &String)
        requires
            old(self).wf(),
            old(self).spec_current() is Some,
        ensures
            final(self).wf(),
            final(self).targets() == old(self).targets(),
            !final(self).aborted(),
            final(self).done_count() == old(self).done_count() + 1,
            final(self).collected() == old(self).collected().push(addr@),
    {
        self.addresses.push(addr.clone());
        self.next = self.next + 1;
        proof {
            assert(self.collected() =~= old(self).collected().push(addr@));
        }
    }

    /// Record a hard failure: the batch aborts and the remaining items are
    /// never attempted.
    pub fn record_failure(&mut self, err: VfioError)
        requires
            old(self).wf(),
        ensures
            final(self).wf(),
            final(self).targets() == old(self).targets(),
            final(self).aborted(),
            final(self).spec_failure() == Some(err),
            final(self).done_count() == old(self).done_count(),
            final(self).collected() == old(self).collected(),
    {
        self.failure = Some(err);
    }

    /// Whether the batch is finished, by completion or by abort.
    pub fn is_done(&self) -> (r: bool)
        requires
            self.wf(),
        ensures
            r == (self.spec_current() is None),
    {
        self.failure.is_some() || self.next >= self.idents.len()
    }

    /// The collected addresses, for the reprobe phase.
    pub fn addresses(&self) -> (r: &Vec<String>)
        ensures
            r.deep_view() == self.collected(),
    {
        &self.addresses
    }

    /// The failure that aborted the batch, if any.
    pub fn failure(&self) -> (r: &Option<VfioError>)
        ensures
            *r == self.spec_failure(),
    {
        &self.failure
    }
}

/// The writes that hand a batch of freed devices back to the kernel: for
/// each address, clear its forced-driver override (so it does not stick to
/// the bypass driver), then trigger a reprobe.
pub fn reprobe_writes(addrs: &Vec<String>) -> (r: Vec<PseudoWrite>)
    ensures
        r@.len() == 2 * addrs@.len(),
        forall|i: int|
            #![trigger addrs@[i]]
            0 <= i < addrs@.len() ==> is_clear_override_for(r@[2 * i], addrs@[i]@)
                && is_reprobe_for(r@[2 * i + 1], addrs@[i]@),
{
    let n: usize = addrs.len();
    let mut out: Vec<PseudoWrite> = Vec::new();
    let mut i: usize = 0;
    while i < n
        invariant
            i <= n,
            n == addrs@.len(),
            out@.len() == 2 * i,
            forall|k: int|
                #![trigger addrs@[k]]
                0 <= k < i ==> is_clear_override_for(out@[2 * k], addrs@[k]@) && is_reprobe_for(
                    out@[2 * k + 1],
                    addrs@[k]@,
                ),
        decreases n - i,
    {
        out.push(PseudoWrite::ClearOverride { address: addrs[i].clone() });
        out.push(PseudoWrite::Reprobe { address: addrs[i].clone() });
        i = i + 1;
    }
    out
}

/// An entry of the bypass driver's device directory that is a network
/// device: named like a PCI address, with a readable class file whose
/// trimmed value carries the network-controller prefix.
pub open spec fn spec_vfio_network_entry(e: PciDeviceEntry) -> bool {
    &&& spec_is_pci_address(e.name@)
    &&& e.class is Some
    &&& spec_starts_with(spec_trim(e.class.unwrap()@), "0x02"@)
}

/// The addresses of the network entries of a directory scan, in scan order.
pub open spec fn spec_vfio_addresses(s: Seq<PciDeviceEntry>) -> Seq<Seq<char>>
    decreases s.len(),
{
    if s.len() == 0 {
        Seq::empty()
    } else {
        (if spec_vfio_network_entry(s[0]) {
            seq![s[0].name@]
        } else {
            Seq::empty()
        }) + spec_vfio_addresses(s.drop_first())
    }
}

/// Collect the addresses of every network device in a scan of the bypass
/// driver's device directory. This is what a reset operates on; a device of
/// another class, or an unreadable one, is left alone.
pub fn vfio_network_addresses(entries: &Vec<PciDeviceEntry>) -> (r: Vec<String>)
    ensures
        r.deep_view() == spec_vfio_addresses(entries@),
{
    let n: usize = entries.len();
    let mut out: Vec<String> = Vec::new();
    let mut i: usize = 0;
    proof {
        assert(entries@.skip(0) =~= entries@);
        assert(out.deep_view() =~= Seq::<Seq<char>>::empty());
    }
    while i < n
        invariant
            i <= n,
            n == entries@.len(),
            spec_vfio_addresses(entries@) == out.deep_view() + spec_vfio_addresses(
                entries@.skip(i as int),
            ),
        decreases n - i,
    {
        let e = &entries[i];
        let ghost rest = entries@.skip(i as int);
        proof {
            assert(rest[0] == entries@[i as int]);
            assert(rest.drop_first() =~= entries@.skip(i + 1));
        }
        let keep = is_pci_address(e.name.as_str()) && match &e.class {
            Some(c) => {
                let t = trim_ws(c.as_str());
                starts_with(t.as_str(), "0x02")
            },
            None => false,
        };
        if keep {
            let ghost before = out.deep_view();
            out.push(e.name.clone());
            proof {
                assert(out.deep_view() =~= before.push(e.name@));
                assert(spec_vfio_addresses(rest) == seq![e.name@] + spec_vfio_addresses(
                    entries@.skip(i + 1),
                ));
                assert(before.push(e.name@) + spec_vfio_addresses(entries@.skip(i + 1)) =~= before
                    + spec_vfio_addresses(rest));
            }
        } else {
            proof {
                assert(spec_vfio_addresses(rest) == spec_vfio_addresses(entries@.skip(i + 1)));
                assert(Seq::<Seq<char>>::empty() + spec_vfio_addresses(entries@.skip(i + 1))
                    =~= spec_vfio_addresses(entries@.skip(i + 1)));
            }
        }
        i = i + 1;
    }
    proof {
        assert(entries@.skip(n as int).len() == 0);
        assert(out.deep_view() + Seq::<Seq<char>>::empty() =~= out.deep_view());
    }
    out
}

/// The name-to-address pairs read back after a reprobe: for each freed
/// address, every interface name that reappeared under it, in scan order.
pub open spec fn spec_rediscovered_pairs(
    addrs: Seq<Seq<char>>,
    lists: Seq<Seq<Seq<char>>>,
) -> Seq<(Seq<char>, Seq<char>)>
    decreases addrs.len(),
{
    if addrs.len() == 0 {
        Seq::empty()
    } else {
        lists[0].map_values(|n: Seq<char>| (n, addrs[0])) + spec_rediscovered_pairs(
            addrs.drop_first(),
            lists.drop_first(),
        )
    }
}

/// Pair each freed address with the interface names that reappeared under
/// it after the settle delay, ready to merge into the store. `net_listings`
/// holds, for each address in `addrs`, the names now under its `net/`
/// directory.
pub fn rediscovered_mappings(addrs: &Vec<String>, net_listings: &Vec<Vec<String>>) -> (r: Mappings)
    requires
        addrs@.len() == net_listings@.len(),
    ensures
        r.wf(),
        r.as_map() == map_of(
            spec_rediscovered_pairs(addrs.deep_view(), net_listings.deep_view()),
        ),
{
    let n: usize = addrs.len();
    let mut m = Mappings::new();
    let ghost mut acc: Seq<(Seq<char>, Seq<char>)> = Seq::empty();
    let ghost full = spec_rediscovered_pairs(addrs.deep_view(), net_listings.deep_view());
    let mut i: usize = 0;
    proof {
        assert(addrs.deep_view().skip(0) =~= addrs.deep_view());
        assert(net_listings.deep_view().skip(0) =~= net_listings.deep_view());
        assert(acc + full =~= full);
    }
    while i < n
        invariant
            i <= n,
            n == addrs@.len(),
            addrs@.len() == net_listings@.len(),
            m.wf(),
            m.as_map() == map_of(acc),
            full == spec_rediscovered_pairs(addrs.deep_view(), net_listings.deep_view()),
            full == acc + spec_rediscovered_pairs(
                addrs.deep_view().skip(i as int),
                net_listings.deep_view().skip(i as int),
            ),
        decreases n - i,
    {
        let ghost ra = addrs.deep_view().skip(i as int);
        let ghost rl = net_listings.deep_view().skip(i as int);
        let ghost one = net_listings.deep_view()[i as int].map_values(
            |nm: Seq<char>| (nm, addrs.deep_view()[i as int]),
        );
        proof {
            assert(ra[0] == addrs.deep_view()[i as int]);
            assert(rl[0] == net_listings.deep_view()[i as int]);
            assert(ra.drop_first() =~= addrs.deep_view().skip(i + 1));
            assert(rl.drop_first() =~= net_listings.deep_view().skip(i + 1));
            assert(spec_rediscovered_pairs(ra, rl) == one + spec_rediscovered_pairs(
                addrs.deep_view().skip(i + 1),
                net_listings.deep_view().skip(i + 1),
            ));
        }
        let names = &net_listings[i];
        let cnt: usize = names.len();
        let mut k: usize = 0;
        proof {
            assert(one.len() == names@.len());
            assert(acc + one.take(0) =~= acc);
        }
        while k < cnt
            invariant
                k <= cnt,
                cnt == names@.len(),
                i < n,
                n == addrs@.len(),
                addrs@.len() == net_listings@.len(),
                names@ == net_listings@[i as int]@,
                one == net_listings.deep_view()[i as int].map_values(
                    |nm: Seq<char>| (nm, addrs.deep_view()[i as int]),
                ),
                one.len() == cnt,
                m.wf(),
                m.as_map() == map_of(acc + one.take(k as int)),
            decreases cnt - k,
        {
            m.insert(names[k].clone(), addrs[i].clone());
            proof {
                assert(net_listings.deep_view()[i as int][k as int] == names@[k as int]@);
                assert(one[k as int] == (names@[k as int]@, addrs.deep_view()[i as int]));
                assert(addrs.deep_view()[i as int] == addrs@[i as int]@);
                let p = acc + one.take(k + 1);
                assert(p.drop_last() =~= acc + one.take(k as int));
                assert(p.last() == one[k as int]);
                assert(map_of(p) == map_of(acc + one.take(k as int)).insert(
                    names@[k as int]@,
                    addrs@[i as int]@,
                ));
            }
            k = k + 1;
        }
        proof {
            assert(one.take(cnt as int) =~= one);
            acc = acc + one;
            assert((acc.subrange(0, acc.len() - one.len() as int) + one.take(
                one.len() as int,
            )) =~= acc);
            assert(m.as_map() == map_of(acc));
            assert(full =~= acc + spec_rediscovered_pairs(
                addrs.deep_view().skip(i + 1),
                net_listings.deep_view().skip(i + 1),
            ));
        }
        i = i + 1;
    }
    proof {
        assert(spec_rediscovered_pairs(
            addrs.deep_view().skip(n as int),
            net_listings.deep_view().skip(n as int),
        ).len() == 0);
        assert(acc + spec_rediscovered_pairs(
            addrs.deep_view().skip(n as int),
            net_listings.deep_view().skip(n as int),
        ) =~= acc);
        assert(full == acc);
    }
    m
}

} // verus!
