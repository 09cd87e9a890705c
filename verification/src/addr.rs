//! Syntactic classification of PCI addresses.

use vstd::prelude::*;

verus! {

/// A string is taken for a PCI address when it holds both a colon and a dot,
/// as in `0000:01:00.0`.
pub open spec fn spec_is_pci_address(s: Seq<char>) -> bool {
    s.contains(':') && s.contains('.')
}

/// Does `s` look like a PCI address (`DDDD:BB:DD.F`)? The test is the loose
/// one the rest of the crate relies on: a colon and a dot are both present.
pub fn is_pci_address(s: &str) -> (r: bool)
    ensures
        r == spec_is_pci_address(s@),
{
    contains_char(s, ':') && contains_char(s, '.')
}

/// Whether the character `c` occurs in `s`.
pub fn contains_char(s: &str, c: char) -> (r: bool)
    ensures
        r == s@.contains(c),
{
    let len: usize = s.unicode_len();
    let mut i: usize = 0;
    while i < len
        invariant
            i <= len,
            len == s@.len(),
            forall|j: int| 0 <= j < i ==> s@[j] != c,
        decreases len - i,
    {
        if s.get_char(i) == c {
            assert(s@[i as int] == c);
            return true;
        }
        i = i + 1;
    }
    false
}

} // verus!
