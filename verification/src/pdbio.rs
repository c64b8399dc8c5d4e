//! From the program database to the session: the source index and the
//! place in the source of an address.

use vstd::prelude::*;

use crate::debug_em::HackSystem;
use crate::pdb::{location_of, unknown_location, CodeLocation, Pdb, SourceLine};
use crate::source_index::{is_floor, SourceIndex};

verus! {

/// The source index that a source map makes: each line under its address;
/// of two lines with one address the later one stays.
pub open spec fn index_of_lines(lines: Seq<SourceLine>) -> Map<u16, CodeLocation>
    decreases lines.len(),
{
    if lines.len() == 0 {
        Map::empty()
    } else {
        index_of_lines(lines.drop_last()).insert(lines.last().addr, location_of(lines.last()))
    }
}

/// Whether `index` holds a place at or before `addr`.
pub open spec fn has_floor(index: Map<u16, CodeLocation>, addr: u16) -> bool {
    exists|key: u16| index.contains_key(key) && key <= addr
}

/// Whether `loc` is where `addr` lies by `index`: the place under the
/// greatest address that is not above `addr`, or, where the index holds
/// none, the unknown place.
pub open spec fn located(index: Map<u16, CodeLocation>, addr: u16, loc: CodeLocation) -> bool {
    if has_floor(index, addr) {
        is_floor(index, addr, loc.absaddr) && loc == index[loc.absaddr]
    } else {
        loc == unknown_location(addr)
    }
}

impl HackSystem {
    /// The place in the source of the instruction at `addr`.
    pub fn where_are_we(&self, addr: u16) -> (loc: CodeLocation)
        ensures
            located(self.waw@, addr, loc),
    {
        match self.waw.floor(addr) {
            Some(loc) => loc,
            None => CodeLocation::unknown(addr),
        }
    }

    /// Makes the source index anew from the source map of the database.
    pub fn load_waw(&mut self)
        ensures
            final(self).waw@ == index_of_lines(old(self).pdb.source_map@),
            final(self).pdb == old(self).pdb,
            final(self).engine == old(self).engine,
    {
        let mut index = SourceIndex::new();
        let mut i: usize = 0;
        while i < self.pdb.source_map.len()
            invariant
                i <= self.pdb.source_map@.len(),
                index@ == index_of_lines(self.pdb.source_map@.take(i as int)),
            decreases self.pdb.source_map@.len() - i,
        {
            proof {
                let longer = self.pdb.source_map@.take(i + 1);
                assert(longer.drop_last() =~= self.pdb.source_map@.take(i as int));
            }
            index = index.with(CodeLocation::of_line(&self.pdb.source_map[i]));
            i = i + 1;
        }
        assert(self.pdb.source_map@.take(i as int) =~= self.pdb.source_map@);
        self.waw = index;
    }

    /// Takes a new database in place of the old one and makes the source
    /// index anew from it.
    pub fn load_pdb(&mut self, pdb: Pdb)
        ensures
            final(self).pdb == pdb,
            final(self).waw@ == index_of_lines(pdb.source_map@),
            final(self).engine == old(self).engine,
    {
        self.pdb = pdb;
        self.load_waw();
    }
}

} // verus!
