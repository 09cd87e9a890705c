//! The persistent name-to-address mapping store. A device handed to the
//! bypass driver loses its interface name, so the store keeps the last known
//! `name -> PCI address` pair for every interface; entries are never removed
//! automatically, only inserted or overwritten.

use vstd::prelude::*;

verus! {

/// An ordered table of `interface name -> PCI address` pairs with unique
/// names. The order of first insertion is kept, which fixes which entry an
/// address lookup returns when two names share an address.
#[derive(Debug)]
pub struct Mappings {
    entries: Vec<(String, String)>,
}

/// The map denoted by a sequence of pairs; a later pair overrides an earlier
/// one with the same name.
pub open spec fn map_of(entries: Seq<(Seq<char>, Seq<char>)>) -> Map<Seq<char>, Seq<char>>
    decreases entries.len(),
{
    if entries.len() == 0 {
        Map::empty()
    } else {
        map_of(entries.drop_last()).insert(entries.last().0, entries.last().1)
    }
}

/// The name of the first pair holding `addr`, in pair order.
pub open spec fn first_name_for(
    entries: Seq<(Seq<char>, Seq<char>)>,
    addr: Seq<char>,
) -> Option<Seq<char>>
    decreases entries.len(),
{
    if entries.len() == 0 {
        None
    } else if entries[0].1 == addr {
        Some(entries[0].0)
    } else {
        first_name_for(entries.drop_first(), addr)
    }
}

/// A key of `map_of(entries)` is exactly a name that some pair holds.
pub proof fn lemma_map_of_contains(entries: Seq<(Seq<char>, Seq<char>)>, name: Seq<char>)
    ensures
        map_of(entries).contains_key(name) <==> exists|i: int|
            0 <= i < entries.len() && entries[i].0 == name,
    decreases entries.len(),
{
    if entries.len() > 0 {
        lemma_map_of_contains(entries.drop_last(), name);
        if map_of(entries).contains_key(name) {
            if entries.last().0 == name {
                assert(entries[entries.len() - 1].0 == name);
            } else {
                let i = choose|i: int| 0 <= i < entries.drop_last().len() && entries.drop_last()[i].0
                    == name;
                assert(entries[i].0 == name);
            }
        }
        if exists|i: int| 0 <= i < entries.len() && entries[i].0 == name {
            let i = choose|i: int| 0 <= i < entries.len() && entries[i].0 == name;
            if i < entries.len() - 1 {
                assert(entries.drop_last()[i].0 == name);
            }
        }
    }
}

/// Under unique names, each pair is mapped exactly as written.
pub proof fn lemma_map_of_unique(entries: Seq<(Seq<char>, Seq<char>)>, i: int)
    requires
        forall|a: int, b: int|
            0 <= a < b < entries.len() ==> entries[a].0 != entries[b].0,
        0 <= i < entries.len(),
    ensures
        map_of(entries).contains_key(entries[i].0),
        map_of(entries)[entries[i].0] == entries[i].1,
    decreases entries.len(),
{
    if i == entries.len() - 1 {
        lemma_map_of_contains(entries, entries[i].0);
    } else {
        lemma_map_of_unique(entries.drop_last(), i);
        assert(entries.drop_last()[i] == entries[i]);
        assert(entries.last().0 != entries[i].0);
    }
}

impl Mappings {
    /// The name/address pairs, as character sequences, in store order.
    pub closed spec fn pairs(self) -> Seq<(Seq<char>, Seq<char>)> {
        self.entries@.map_values(|e: (String, String)| (e.0@, e.1@))
    }

    /// The map the store denotes.
    pub open spec fn as_map(self) -> Map<Seq<char>, Seq<char>> {
        map_of(self.pairs())
    }

    /// Names are unique across the store.
    pub open spec fn wf(self) -> bool {
        forall|a: int, b: int| 0 <= a < b < self.pairs().len() ==> self.pairs()[a].0
            != self.pairs()[b].0
    }

    /// An empty store.
    pub fn new() -> (r: Mappings)
        ensures
            r.wf(),
            r.as_map() == Map::<Seq<char>, Seq<char>>::empty(),
            r.pairs() == Seq::<(Seq<char>, Seq<char>)>::empty(),
    {
        let r = Mappings { entries: Vec::new() };
        proof {
            assert(r.pairs() =~= Seq::<(Seq<char>, Seq<char>)>::empty());
        }
        r
    }

    /// How many pairs the store holds.
    pub fn len(&self) -> (r: usize)
        ensures
            r == self.pairs().len(),
    {
        self.entries.len()
    }

    /// The pair at position `i`, in store order.
    pub fn entry_at(&self, i: usize) -> (r: (String, String))
        requires
            i < self.pairs().len(),
        ensures
            (r.0@, r.1@) == self.pairs()[i as int],
    {
        let e = &self.entries[i];
        (e.0.clone(), e.1.clone())
    }

    /// The address stored for `name`, if any.
    pub fn get(&self, name: &str) -> (r: Option<String>)
        requires
            self.wf(),
        ensures
            match r {
                Some(addr) => self.as_map().contains_key(name@) && self.as_map()[name@] == addr@,
                None => !self.as_map().contains_key(name@),
            },
    {
        let n: usize = self.entries.len();
        let mut i: usize = 0;
        while i < n
            invariant
                i <= n,
                n == self.entries@.len(),
                self.wf(),
                forall|j: int| 0 <= j < i ==> self.pairs()[j].0 != name@,
            decreases n - i,
        {
            if crate::strings::str_eq(self.entries[i].0.as_str(), name) {
                proof {
                    lemma_map_of_unique(self.pairs(), i as int);
                }
                return Some(self.entries[i].1.clone());
            }
            assert(self.pairs()[i as int].0 != name@);
            i = i + 1;
        }
        proof {
            lemma_map_of_contains(self.pairs(), name@);
        }
        None
    }

    /// The name stored for `addr`: the first pair, in store order, whose
    /// address matches.
    pub fn name_for_address(&self, addr: &str) -> (r: Option<String>)
        ensures
            r.deep_view() == first_name_for(self.pairs(), addr@),
    {
        let n: usize = self.entries.len();
        let mut i: usize = 0;
        proof {
            assert(self.pairs().skip(0) =~= self.pairs());
        }
        while i < n
            invariant
                i <= n,
                n == self.entries@.len(),
                first_name_for(self.pairs(), addr@) == first_name_for(
                    self.pairs().skip(i as int),
                    addr@,
                ),
            decreases n - i,
        {
            let ghost rest = self.pairs().skip(i as int);
            proof {
                assert(rest[0] == self.pairs()[i as int]);
                assert(rest.drop_first() =~= self.pairs().skip(i + 1));
            }
            if crate::strings::str_eq(self.entries[i].1.as_str(), addr) {
                let name = self.entries[i].0.clone();
                proof {
                    assert(first_name_for(rest, addr@) == Some(self.pairs()[i as int].0));
                    assert(Some(name).deep_view() == Some(name@));
                }
                return Some(name);
            }
            assert(self.pairs()[i as int].1 != addr@);
            i = i + 1;
        }
        proof {
            assert(self.pairs().skip(n as int).len() == 0);
        }
        None
    }

    /// Insert `name -> addr`, overwriting the address of an existing entry
    /// with the same name.
    pub fn insert(&mut self, name: String, addr: String)
        requires
            old(self).wf(),
        ensures
            final(self).wf(),
            final(self).as_map() == old(self).as_map().insert(name@, addr@),
    {
        let n: usize = self.entries.len();
        let mut i: usize = 0;
        while i < n
            invariant
                i <= n,
                n == self.entries@.len(),
                *self == *old(self),
                self.wf(),
                forall|j: int| 0 <= j < i ==> self.pairs()[j].0 != name@,
            decreases n - i,
        {
            if crate::strings::str_eq(self.entries[i].0.as_str(), name.as_str()) {
                let ghost before = self.pairs();
                proof {
                    assert(before == old(self).pairs());
                    assert(before[i as int].0 == name@);
                }
                self.entries[i] = (name, addr);
                proof {
                    let after = self.pairs();
                    assert(after =~= before.update(i as int, (before[i as int].0, addr@)));
                    lemma_map_of_update_value(before, i as int, addr@);
                    assert(self.as_map() == old(self).as_map().insert(name@, addr@));
                    assert forall|a: int, b: int| 0 <= a < b < after.len() implies after[a].0
                        != after[b].0 by {
                        assert(after[a].0 == before[a].0);
                        assert(after[b].0 == before[b].0);
                    }
                }
                return ;
            }
            assert(self.pairs()[i as int].0 != name@);
            i = i + 1;
        }
        let ghost before = self.pairs();
        proof {
            assert(before == old(self).pairs());
            lemma_map_of_contains(before, name@);
        }
        self.entries.push((name, addr));
        proof {
            let after = self.pairs();
            assert(after.drop_last() =~= before);
            assert(after.last() == (name@, addr@));
            assert(after.len() == before.len() + 1);
            assert(map_of(after) == map_of(after.drop_last()).insert(
                after.last().0,
                after.last().1,
            ));
            assert(self.as_map() == old(self).as_map().insert(name@, addr@));
            assert forall|a: int, b: int| 0 <= a < b < after.len() implies after[a].0
                != after[b].0 by {
                if b < after.len() - 1 {
                    assert(after[a].0 == before[a].0);
                    assert(after[b].0 == before[b].0);
                } else {
                    assert(after[a].0 == before[a].0);
                    assert(before[a].0 != name@);
                }
            }
        }
    }

    /// A copy of the store.
    pub fn duplicate(&self) -> (r: Mappings)
        ensures
            r.pairs() == self.pairs(),
            r.as_map() == self.as_map(),
            r.wf() == self.wf(),
    {
        let n: usize = self.entries.len();
        let mut out: Vec<(String, String)> = Vec::new();
        let mut i: usize = 0;
        while i < n
            invariant
                i <= n,
                n == self.entries@.len(),
                out@.len() == i,
                forall|j: int|
                    0 <= j < i ==> (out@[j].0@, out@[j].1@) == (self.entries@[j].0@,
                    self.entries@[j].1@),
            decreases n - i,
        {
            let e = &self.entries[i];
            out.push((e.0.clone(), e.1.clone()));
            i = i + 1;
        }
        let r = Mappings { entries: out };
        proof {
            assert(r.pairs() =~= self.pairs());
        }
        r
    }

    /// Insert every pair of `discovered` into this store, in store order;
    /// existing names keep their place but take the discovered address.
    pub fn merge_from(&mut self, discovered: &Mappings)
        requires
            old(self).wf(),
        ensures
            final(self).wf(),
            final(self).as_map() == old(self).as_map().union_prefer_right(discovered.as_map()),
    {
        let n: usize = discovered.entries.len();
        let mut i: usize = 0;
        proof {
            assert(discovered.pairs().take(0) =~= Seq::<(Seq<char>, Seq<char>)>::empty());
            assert(old(self).as_map().union_prefer_right(map_of(discovered.pairs().take(0)))
                =~= old(self).as_map());
        }
        while i < n
            invariant
                i <= n,
                n == discovered.entries@.len(),
                self.wf(),
                self.as_map() == old(self).as_map().union_prefer_right(
                    map_of(discovered.pairs().take(i as int)),
                ),
            decreases n - i,
        {
            let pair = &discovered.entries[i];
            self.insert(pair.0.clone(), pair.1.clone());
            proof {
                let p = discovered.pairs().take(i + 1);
                assert(p.drop_last() =~= discovered.pairs().take(i as int));
                assert(p.last() == (discovered.entries@[i as int].0@,
                discovered.entries@[i as int].1@));
                assert(self.as_map() =~= old(self).as_map().union_prefer_right(map_of(p)));
            }
            i = i + 1;
        }
        proof {
            assert(discovered.pairs().take(n as int) =~= discovered.pairs());
        }
    }
}

/// Updating only the address at position `i` turns the denoted map into an
/// insert of the new address under the unchanged name.
proof fn lemma_map_of_update_value(
    entries: Seq<(Seq<char>, Seq<char>)>,
    i: int,
    addr: Seq<char>,
)
    requires
        forall|a: int, b: int| 0 <= a < b < entries.len() ==> entries[a].0 != entries[b].0,
        0 <= i < entries.len(),
    ensures
        map_of(entries.update(i, (entries[i].0, addr))) == map_of(entries).insert(
            entries[i].0,
            addr,
        ),
    decreases entries.len(),
{
    let updated = entries.update(i, (entries[i].0, addr));
    if i == entries.len() - 1 {
        assert(updated.drop_last() =~= entries.drop_last());
        assert(map_of(updated) =~= map_of(entries).insert(entries[i].0, addr));
    } else {
        lemma_map_of_update_value(entries.drop_last(), i, addr);
        assert(updated.drop_last() =~= entries.drop_last().update(i, (entries[i].0, addr)));
        assert(updated.last() == entries.last());
        assert(entries.last().0 != entries[i].0);
        assert(map_of(updated) == map_of(entries.drop_last()).insert(entries[i].0, addr).insert(
            entries.last().0,
            entries.last().1,
        ));
        assert(map_of(entries.drop_last()).insert(entries[i].0, addr).insert(
            entries.last().0,
            entries.last().1,
        ) =~= map_of(entries).insert(entries[i].0, addr));
    }
}

/// `addr` is the address of some entry of `m`.
pub open spec fn map_has_addr(m: Map<Seq<char>, Seq<char>>, addr: Seq<char>) -> bool {
    exists|n: Seq<char>| m.contains_key(n) && m[n] == addr
}

/// Merging is non-destructive: the merged store holds all of the discovered
/// pairs, and every prior pair whose address the discovery did not see again
/// — provided such a pair's name was not rediscovered under a new address.
pub proof fn lemma_merge_nondestructive(
    before: Map<Seq<char>, Seq<char>>,
    discovered: Map<Seq<char>, Seq<char>>,
    merged: Map<Seq<char>, Seq<char>>,
)
    requires
        merged == before.union_prefer_right(discovered),
        forall|n: Seq<char>|
            before.contains_key(n) && !map_has_addr(discovered, before[n])
                ==> !discovered.contains_key(n),
    ensures
        forall|n: Seq<char>| discovered.contains_key(n) ==> merged.contains_key(n) && merged[n]
            == discovered[n],
        forall|n: Seq<char>|
            before.contains_key(n) && !map_has_addr(discovered, before[n]) ==> merged.contains_key(
                n,
            ) && merged[n] == before[n],
{
}

} // verus!
