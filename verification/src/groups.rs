//! The isolation-group advisor: which other addresses share a device's
//! hardware address-translation context. Membership is read-only, derived
//! from the OS; a shared group is surfaced as an advisory condition, never
//! enforced as a rejection.

use vstd::prelude::*;
use crate::error::VfioError;
use crate::strings::str_eq;

verus! {

/// The member addresses of an isolation group. The listing is what a scan
/// of the group's device directory produced, or nothing when the group id
/// does not exist in the OS-exposed tree — the one failure.
pub fn get_iommu_group_devices(group_id: u32, listing: &Option<Vec<String>>) -> (r: Result<
    Vec<String>,
    VfioError,
>)
    ensures
        match r {
            Ok(v) => listing matches Some(l) && v@ == l@,
            Err(e) => listing is None && (e matches VfioError::GroupNotFound(g) && g == group_id),
        },
{
    match listing {
        Some(l) => {
            let mut out: Vec<String> = Vec::new();
            let n: usize = l.len();
            let mut i: usize = 0;
            while i < n
                invariant
                    i <= n,
                    n == l@.len(),
                    out@ == l@.take(i as int),
                decreases n - i,
            {
                out.push(l[i].clone());
                proof {
                    assert(l@.take(i + 1) =~= l@.take(i as int).push(l@[i as int]));
                }
                i = i + 1;
            }
            proof {
                assert(l@.take(n as int) =~= l@);
            }
            Ok(out)
        },
        None => Err(VfioError::GroupNotFound(group_id)),
    }
}

/// The co-members of `address` in its group: every member other than the
/// device itself, in listing order; nothing when the device is alone. A
/// populated result is an advisory condition — the operation proceeds, the
/// caller is only told which devices share the isolation context.
pub fn group_advisory(address: &str, members: &Vec<String>) -> (r: Option<Vec<String>>)
    ensures
        match r {
            Some(v) => {
                &&& v.deep_view() == members.deep_view().filter(|m: Seq<char>| m != address@)
                &&& v@.len() > 0
            },
            None => members.deep_view().filter(|m: Seq<char>| m != address@).len() == 0,
        },
{
    let n: usize = members.len();
    let mut out: Vec<String> = Vec::new();
    let mut i: usize = 0;
    proof {
        assert(members.deep_view().take(0).filter(|m: Seq<char>| m != address@) =~= Seq::<
            Seq<char>,
        >::empty());
        assert(out.deep_view() =~= Seq::<Seq<char>>::empty());
    }
    while i < n
        invariant
            i <= n,
            n == members@.len(),
            out.deep_view() == members.deep_view().take(i as int).filter(
                |m: Seq<char>| m != address@,
            ),
        decreases n - i,
    {
        let ghost prefix = members.deep_view().take(i as int);
        let ghost next = members.deep_view().take(i + 1);
        proof {
            assert(next.drop_last() =~= prefix);
            assert(next.last() == members.deep_view()[i as int]);
            reveal(Seq::filter);
        }
        if !str_eq(members[i].as_str(), address) {
            let ghost before = out.deep_view();
            out.push(members[i].clone());
            proof {
                assert(out.deep_view() =~= before.push(members@[i as int]@));
                assert(next.filter(|m: Seq<char>| m != address@) =~= prefix.filter(
                    |m: Seq<char>| m != address@,
                ).push(members.deep_view()[i as int]));
            }
        } else {
            proof {
                assert(next.filter(|m: Seq<char>| m != address@) =~= prefix.filter(
                    |m: Seq<char>| m != address@,
                ));
            }
        }
        i = i + 1;
    }
    proof {
        assert(members.deep_view().take(n as int) =~= members.deep_view());
    }
    if out.len() > 0 {
        Some(out)
    } else {
        None
    }
}

} // verus!
