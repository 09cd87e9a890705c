//! Identifier resolution: turn a user-supplied interface name or raw PCI
//! address into something the binding engine can act on. A device handed to
//! the bypass driver has no interface name, so resolution falls back from
//! the live namespace to the mapping store.

use vstd::prelude::*;
use crate::addr::{is_pci_address, spec_is_pci_address};
use crate::device::NetworkDevice;
use crate::error::VfioError;
use crate::mapping::Mappings;

verus! {

/// What a bind identifier resolved to.
#[derive(Debug, Clone)]
pub enum BindTarget {
    /// A live device record.
    Device(NetworkDevice),
    /// A bare address recovered from the mapping store: the device exists
    /// but is invisible in the live namespace.
    Address(String),
}

/// Resolve an identifier for binding: a live device record wins; with none,
/// the mapping store supplies the last known address for the name; with
/// neither, the identifier is unresolvable.
pub fn resolve_bind_target(ident: &str, live: &Option<NetworkDevice>, store: &Mappings) -> (r:
    Result<BindTarget, VfioError>)
    requires
        store.wf(),
    ensures
        match r {
            Ok(BindTarget::Device(d)) => live == Some(d),
            Ok(BindTarget::Address(a)) => {
                &&& live is None
                &&& store.as_map().contains_key(ident@)
                &&& store.as_map()[ident@] == a@
            },
            Err(e) => {
                &&& live is None
                &&& !store.as_map().contains_key(ident@)
                &&& e matches VfioError::DeviceNotFound(n) && n@ == ident@
            },
        },
{
    match live {
        Some(d) => Ok(BindTarget::Device(d.snapshot())),
        None => match store.get(ident) {
            Some(addr) => Ok(BindTarget::Address(addr)),
            None => Err(VfioError::DeviceNotFound(ident.to_owned())),
        },
    }
}

/// Round trip: once a bind has committed `name -> addr` to the store, a
/// later resolution of `name` through the store succeeds and yields `addr`,
/// even when the device has vanished from the live namespace — exactly the
/// case `resolve_bind_target` serves when `live` is `None`.
pub proof fn lemma_bind_then_resolve(
    store: Map<Seq<char>, Seq<char>>,
    name: Seq<char>,
    addr: Seq<char>,
)
    ensures
        store.insert(name, addr).contains_key(name),
        store.insert(name, addr)[name] == addr,
{
}

/// What an unbind identifier resolved to.
#[derive(Debug, Clone)]
pub enum UnbindTarget {
    /// The identifier is syntactically an address: operate on it directly.
    DirectAddress(String),
    /// A live device record found under the interface name.
    LiveDevice(NetworkDevice),
    /// An address recovered from the mapping store.
    StoredAddress(String),
}

/// The address an unbind target denotes.
pub open spec fn spec_target_address(t: UnbindTarget) -> Seq<char> {
    match t {
        UnbindTarget::DirectAddress(a) => a@,
        UnbindTarget::LiveDevice(d) => d.pci_address@,
        UnbindTarget::StoredAddress(a) => a@,
    }
}

/// Resolve an identifier for unbinding: a syntactic address is taken as is;
/// otherwise the live namespace, then the mapping store; with neither, the
/// identifier is unresolvable.
pub fn resolve_unbind_target(ident: &str, live: &Option<NetworkDevice>, store: &Mappings) -> (r:
    Result<UnbindTarget, VfioError>)
    requires
        store.wf(),
    ensures
        match r {
            Ok(UnbindTarget::DirectAddress(a)) => spec_is_pci_address(ident@) && a@ == ident@,
            Ok(UnbindTarget::LiveDevice(d)) => !spec_is_pci_address(ident@) && live == Some(d),
            Ok(UnbindTarget::StoredAddress(a)) => {
                &&& !spec_is_pci_address(ident@)
                &&& live is None
                &&& store.as_map().contains_key(ident@)
                &&& store.as_map()[ident@] == a@
            },
            Err(e) => {
                &&& !spec_is_pci_address(ident@)
                &&& live is None
                &&& !store.as_map().contains_key(ident@)
                &&& e matches VfioError::DeviceNotFound(n) && n@ == ident@
            },
        },
{
    if is_pci_address(ident) {
        return Ok(UnbindTarget::DirectAddress(ident.to_owned()));
    }
    match live {
        Some(d) => Ok(UnbindTarget::LiveDevice(d.snapshot())),
        None => match store.get(ident) {
            Some(addr) => Ok(UnbindTarget::StoredAddress(addr)),
            None => Err(VfioError::DeviceNotFound(ident.to_owned())),
        },
    }
}

} // verus!
