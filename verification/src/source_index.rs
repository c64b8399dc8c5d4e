//! The source index: places in the source, kept in the order of their
//! addresses, so that the nearest place at or before an address is found by
//! bisection.

use vstd::prelude::*;

use crate::pdb::CodeLocation;

verus! {

/// An ordered map from addresses to places in the source, with at most one
/// place for an address. Its view is that map.
pub struct SourceIndex {
    entries: Vec<CodeLocation>,
}

/// Whether the addresses of `s` strictly ascend.
pub closed spec fn ascending(s: Seq<CodeLocation>) -> bool {
    forall|i: int, j: int| 0 <= i < j < s.len() ==> s[i].absaddr < s[j].absaddr
}

/// Whether `s` holds a place for the address `key`.
pub closed spec fn holds(s: Seq<CodeLocation>, key: u16) -> bool {
    exists|i: int| 0 <= i < s.len() && (#[trigger] s[i]).absaddr == key
}

/// An index at which `s` holds the place for `key`.
pub closed spec fn slot(s: Seq<CodeLocation>, key: u16) -> int {
    choose|i: int| 0 <= i < s.len() && (#[trigger] s[i]).absaddr == key
}

/// The map that the places of `s` make, each under its own address.
pub closed spec fn as_map(s: Seq<CodeLocation>) -> Map<u16, CodeLocation> {
    Map::new(|key: u16| holds(s, key), |key: u16| s[slot(s, key)])
}

/// Whether `key` is the greatest address at or below `addr` that `m` holds.
pub open spec fn is_floor(m: Map<u16, CodeLocation>, addr: u16, key: u16) -> bool {
    &&& m.contains_key(key)
    &&& key <= addr
    &&& forall|other: u16| m.contains_key(other) && other <= addr ==> other <= key
}

/// Whether `m` holds no address at or below `addr`.
pub open spec fn none_at_or_below(m: Map<u16, CodeLocation>, addr: u16) -> bool {
    forall|other: u16| m.contains_key(other) ==> other > addr
}

/// In an ascending sequence the place for an address stands at one index only.
proof fn lemma_slot(s: Seq<CodeLocation>, i: int)
    requires
        ascending(s),
        0 <= i < s.len(),
    ensures
        holds(s, s[i].absaddr),
        slot(s, s[i].absaddr) == i,
        as_map(s).contains_key(s[i].absaddr),
        as_map(s)[s[i].absaddr] == s[i],
{
    let key = s[i].absaddr;
    let j = slot(s, key);
    assert(0 <= j < s.len() && s[j].absaddr == key);
    if j < i {
        assert(s[j].absaddr < s[i].absaddr);
    }
    if i < j {
        assert(s[i].absaddr < s[j].absaddr);
    }
}

/// What the map holds, the sequence holds at some index.
proof fn lemma_held(s: Seq<CodeLocation>, key: u16) -> (i: int)
    requires
        as_map(s).contains_key(key),
    ensures
        0 <= i < s.len(),
        s[i].absaddr == key,
        i == slot(s, key),
{
    slot(s, key)
}

impl View for SourceIndex {
    type V = Map<u16, CodeLocation>;

    closed spec fn view(&self) -> Map<u16, CodeLocation> {
        as_map(self.entries@)
    }
}

impl SourceIndex {
    #[verifier::type_invariant]
    spec fn ordered(&self) -> bool {
        ascending(self.entries@)
    }

    /// An index without places.
    pub fn new() -> (index: SourceIndex)
        ensures
            index@ == Map::<u16, CodeLocation>::empty(),
    {
        let index = SourceIndex { entries: Vec::new() };
        assert(index@ =~= Map::<u16, CodeLocation>::empty());
        index
    }

    /// Every place stands under its own address.
    pub proof fn lemma_keyed_by_address(&self, key: u16)
        requires
            self@.contains_key(key),
        ensures
            self@[key].absaddr == key,
    {
        let i = lemma_held(self.entries@, key);
    }

    /// Index of the first place whose address is not below `addr`.
    fn lower_bound(&self, addr: u16) -> (at: usize)
        ensures
            at <= self.entries@.len(),
            forall|i: int| 0 <= i < at ==> self.entries@[i].absaddr < addr,
            forall|i: int| at <= i < self.entries@.len() ==> self.entries@[i].absaddr >= addr,
    {
        proof {
            use_type_invariant(self);
        }
        let mut low: usize = 0;
        let mut high: usize = self.entries.len();
        while low < high
            invariant
                low <= high <= self.entries@.len(),
                ascending(self.entries@),
                forall|i: int| 0 <= i < low ==> self.entries@[i].absaddr < addr,
                forall|i: int| high <= i < self.entries@.len() ==> self.entries@[i].absaddr >= addr,
            decreases high - low,
        {
            let mid = low + (high - low) / 2;
            if self.entries[mid].absaddr < addr {
                low = mid + 1;
            } else {
                high = mid;
            }
        }
        low
    }

    /// The index with a place put under its address, in place of any that was there.
    pub fn with(self, loc: CodeLocation) -> (index: SourceIndex)
        ensures
            index@ == self@.insert(loc.absaddr, loc),
    {
        proof {
            use_type_invariant(&self);
        }
        let addr = loc.absaddr;
        let at = self.lower_bound(addr);
        let ghost before = self.entries@;
        let mut entries = self.entries;
        if at < entries.len() && entries[at].absaddr == addr {
            entries[at] = loc;
            proof {
                let after = entries@;
                assert(after =~= before.update(at as int, loc));
                assert(ascending(after));
                assert forall|key: u16| #[trigger]
                    as_map(after).contains_key(key) == as_map(before).insert(
                        addr,
                        loc,
                    ).contains_key(key) by {
                    if as_map(after).contains_key(key) {
                        let i = lemma_held(after, key);
                        lemma_slot(before, i);
                    }
                    if as_map(before).contains_key(key) {
                        let i = lemma_held(before, key);
                        lemma_slot(after, i);
                    }
                    lemma_slot(after, at as int);
                }
                assert forall|key: u16| #[trigger] as_map(after).contains_key(key) implies as_map(
                    after,
                )[key] == as_map(before).insert(addr, loc)[key] by {
                    let i = lemma_held(after, key);
                    lemma_slot(after, i);
                    if key != addr {
                        lemma_slot(before, i);
                    }
                }
                assert(as_map(after) =~= as_map(before).insert(addr, loc));
            }
        } else {
            entries.insert(at, loc);
            proof {
                let after = entries@;
                assert(after =~= before.insert(at as int, loc));
                assert(ascending(after)) by {
                    assert forall|i: int, j: int| 0 <= i < j < after.len() implies after[i].absaddr
                        < after[j].absaddr by {
                        let bi = if i < at { i } else { i - 1 };
                        let bj = if j < at { j } else { j - 1 };
                        if i != at && j != at {
                            assert(before[bi].absaddr < before[bj].absaddr);
                        }
                    }
                }
                assert forall|key: u16| #[trigger]
                    as_map(after).contains_key(key) == as_map(before).insert(
                        addr,
                        loc,
                    ).contains_key(key) by {
                    if as_map(after).contains_key(key) {
                        let i = lemma_held(after, key);
                        if i != at {
                            lemma_slot(before, if i < at { i } else { i - 1 });
                        }
                    }
                    if as_map(before).contains_key(key) {
                        let i = lemma_held(before, key);
                        lemma_slot(after, if i < at { i } else { i + 1 });
                    }
                    lemma_slot(after, at as int);
                }
                assert forall|key: u16| #[trigger] as_map(after).contains_key(key) implies as_map(
                    after,
                )[key] == as_map(before).insert(addr, loc)[key] by {
                    let i = lemma_held(after, key);
                    lemma_slot(after, i);
                    if i != at {
                        lemma_slot(before, if i < at { i } else { i - 1 });
                    }
                }
                assert(as_map(after) =~= as_map(before).insert(addr, loc));
            }
        }
        SourceIndex { entries }
    }

    /// The place under the greatest address that is not above `addr`, if
    /// the index holds one.
    pub fn floor(&self, addr: u16) -> (found: Option<CodeLocation>)
        ensures
            match found {
                Some(loc) => is_floor(self@, addr, loc.absaddr) && loc == self@[loc.absaddr],
                None => none_at_or_below(self@, addr),
            },
    {
        proof {
            use_type_invariant(self);
        }
        let at = self.lower_bound(addr);
        let ghost s = self.entries@;
        let last = if at < self.entries.len() && self.entries[at].absaddr == addr {
            at
        } else if at > 0 {
            at - 1
        } else {
            proof {
                assert forall|other: u16| self@.contains_key(other) implies other > addr by {
                    let i = lemma_held(s, other);
                }
            }
            return None;
        };
        let loc = self.entries[last].clone();
        proof {
            lemma_slot(s, last as int);
            assert forall|other: u16| self@.contains_key(other) && other <= addr implies other
                <= loc.absaddr by {
                let i = lemma_held(s, other);
                if i > last {
                    assert(s[last as int].absaddr < s[i].absaddr);
                }
            }
        }
        Some(loc)
    }
}

} // verus!
