//! The breakpoint table: at most one breakpoint for each instruction address.

use vstd::prelude::*;

use crate::engine::{BreakPoint, EngineState, HackEngine};

verus! {

broadcast use {vstd::laws_cmp::group_laws_cmp, vstd::std_specs::btree::group_btree_axioms};

/// Whether the program counter stands on an enabled breakpoint.
pub open spec fn at_breakpoint(s: EngineState) -> bool {
    s.break_points.contains_key(s.pc) && s.break_points[s.pc].enabled
}

impl HackEngine {
    /// Puts an enabled breakpoint on `addr`, in place of any that was there.
    pub fn add_breakpoint(&mut self, addr: u16)
        ensures
            final(self)@ == (EngineState {
                break_points: old(self)@.break_points.insert(
                    addr,
                    BreakPoint { address: addr, enabled: true },
                ),
                ..old(self)@
            }),
    {
        self.break_points.insert(addr, BreakPoint { address: addr, enabled: true });
    }

    /// Takes the breakpoint off `addr`. Without one there, nothing changes.
    pub fn remove_breakpoint(&mut self, addr: u16)
        ensures
            final(self)@ == (EngineState {
                break_points: old(self)@.break_points.remove(addr),
                ..old(self)@
            }),
    {
        self.break_points.remove(&addr);
    }

    /// Whether the program counter stands on an enabled breakpoint.
    pub fn breakpoint_hit(&self) -> (hit: bool)
        ensures
            hit == at_breakpoint(self@),
    {
        match self.break_points.get(&self.pc) {
            Some(bp) => bp.enabled,
            None => false,
        }
    }
}

} // verus!
