//! Interface checks: hold a set of interfaces against the binding states
//! they are required to be in, and classify the overall outcome the way the
//! calling automation branches on it. The observations come from the
//! unverified shell; the classification happens here.

use vstd::prelude::*;
use crate::device::DeviceStatus;

verus! {

/// The overall result of a check run: every interface as required, some
/// interface missing (which outranks a wrong mode), or some interface in
/// the wrong mode.
#[derive(Debug, Clone, Copy, PartialEq, Eq, Structural)]
pub enum CheckOutcome {
    AllOk,
    NotFound,
    WrongMode,
}

/// A missing interface: it resolved to no record at all.
pub open spec fn spec_missing(obs: Seq<(String, Option<DeviceStatus>)>) -> bool {
    exists|i: int| 0 <= i < obs.len() && obs[i].1 is None
}

/// Some interface resolved, but to a different status than required.
pub open spec fn spec_wrong(
    obs: Seq<(String, Option<DeviceStatus>)>,
    required: DeviceStatus,
) -> bool {
    exists|i: int|
        0 <= i < obs.len() && obs[i].1 is Some && obs[i].1 != Some(required)
}

/// Check the observed statuses of three interface sets: those that must be
/// bypass-bound, those that must be kernel-bound, and those that only need
/// to exist. A missing interface dominates a wrong mode.
pub fn check_interfaces_with_mode(
    vfio_obs: &Vec<(String, Option<DeviceStatus>)>,
    kernel_obs: &Vec<(String, Option<DeviceStatus>)>,
    existence_obs: &Vec<(String, Option<DeviceStatus>)>,
) -> (r: CheckOutcome)
    ensures
        r == (if spec_missing(vfio_obs@) || spec_missing(kernel_obs@)
            || spec_missing(existence_obs@) {
            CheckOutcome::NotFound
        } else if spec_wrong(vfio_obs@, DeviceStatus::Vfio) || spec_wrong(
            kernel_obs@,
            DeviceStatus::Kernel,
        ) {
            CheckOutcome::WrongMode
        } else {
            CheckOutcome::AllOk
        }),
{
    let mut not_found = has_missing(vfio_obs);
    not_found = not_found || has_missing(kernel_obs);
    not_found = not_found || has_missing(existence_obs);
    if not_found {
        return CheckOutcome::NotFound;
    }
    let mut wrong = has_wrong(vfio_obs, DeviceStatus::Vfio);
    wrong = wrong || has_wrong(kernel_obs, DeviceStatus::Kernel);
    if wrong {
        CheckOutcome::WrongMode
    } else {
        CheckOutcome::AllOk
    }
}

/// Check a single set of interfaces that must all be bypass-bound.
pub fn check_interfaces(obs: &Vec<(String, Option<DeviceStatus>)>) -> (r: CheckOutcome)
    ensures
        r == (if spec_missing(obs@) {
            CheckOutcome::NotFound
        } else if spec_wrong(obs@, DeviceStatus::Vfio) {
            CheckOutcome::WrongMode
        } else {
            CheckOutcome::AllOk
        }),
{
    if has_missing(obs) {
        CheckOutcome::NotFound
    } else if has_wrong(obs, DeviceStatus::Vfio) {
        CheckOutcome::WrongMode
    } else {
        CheckOutcome::AllOk
    }
}

/// Does some observation lack a record?
fn has_missing(obs: &Vec<(String, Option<DeviceStatus>)>) -> (r: bool)
    ensures
        r == spec_missing(obs@),
{
    let n: usize = obs.len();
    let mut i: usize = 0;
    while i < n
        invariant
            i <= n,
            n == obs@.len(),
            forall|j: int| 0 <= j < i ==> !(obs@[j].1 is None),
        decreases n - i,
    {
        if obs[i].1.is_none() {
            proof {
                assert(obs@[i as int].1 is None);
            }
            return true;
        }
        i = i + 1;
    }
    proof {
        if spec_missing(obs@) {
            let j = choose|j: int| 0 <= j < obs@.len() && obs@[j].1 is None;
            assert(!(obs@[j].1 is None));
        }
    }
    false
}

/// Does some observation show a record whose status is not `required`?
fn has_wrong(obs: &Vec<(String, Option<DeviceStatus>)>, required: DeviceStatus) -> (r: bool)
    ensures
        r == spec_wrong(obs@, required),
{
    let n: usize = obs.len();
    let mut i: usize = 0;
    while i < n
        invariant
            i <= n,
            n == obs@.len(),
            forall|j: int|
                0 <= j < i ==> !(obs@[j].1 is Some && obs@[j].1 != Some(
                    required,
                )),
        decreases n - i,
    {
        let bad = match &obs[i].1 {
            Some(st) => *st != required,
            None => false,
        };
        if bad {
            proof {
                assert(obs@[i as int].1 is Some && obs@[i as int].1 != Some(
                    required,
                ));
            }
            return true;
        }
        i = i + 1;
    }
    proof {
        if spec_wrong(obs@, required) {
            let j = choose|j: int|
                0 <= j < obs@.len() && obs@[j].1 is Some
                    && obs@[j].1 != Some(required);
            assert(!(obs@[j].1 is Some && obs@[j].1 != Some(required)));
        }
    }
    false
}

/// What handling one interface of an ensure run produced.
#[derive(Debug, Clone, Copy, PartialEq, Eq, Structural)]
pub enum EnsureItem {
    /// Already bypass-bound, nothing done.
    AlreadyBound,
    /// Bound now.
    Bound,
    /// The bind failed.
    BindFailed,
    /// The interface resolved to no record.
    NotFound,
}

/// The overall result of an ensure run.
#[derive(Debug, Clone, Copy, PartialEq, Eq, Structural)]
pub enum EnsureOutcome {
    AllOk,
    NotFound,
    BindFailed,
}

/// Classify an ensure run from its per-interface results: a missing
/// interface dominates a failed bind, which dominates success.
pub fn ensure_outcome(items: &Vec<EnsureItem>) -> (r: EnsureOutcome)
    ensures
        r == (if exists|i: int| 0 <= i < items@.len() && items@[i] == EnsureItem::NotFound {
            EnsureOutcome::NotFound
        } else if exists|i: int| 0 <= i < items@.len() && items@[i] == EnsureItem::BindFailed {
            EnsureOutcome::BindFailed
        } else {
            EnsureOutcome::AllOk
        }),
{
    let n: usize = items.len();
    let mut any_missing = false;
    let mut any_failed = false;
    let mut i: usize = 0;
    while i < n
        invariant
            i <= n,
            n == items@.len(),
            any_missing == exists|j: int| 0 <= j < i && items@[j] == EnsureItem::NotFound,
            any_failed == exists|j: int| 0 <= j < i && items@[j] == EnsureItem::BindFailed,
        decreases n - i,
    {
        if items[i] == EnsureItem::NotFound {
            any_missing = true;
        }
        if items[i] == EnsureItem::BindFailed {
            any_failed = true;
        }
        i = i + 1;
    }
    if any_missing {
        EnsureOutcome::NotFound
    } else if any_failed {
        EnsureOutcome::BindFailed
    } else {
        EnsureOutcome::AllOk
    }
}

} // verus!
