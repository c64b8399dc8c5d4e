//! Bounded runs: a single step, a batch of instructions, and a run that
//! comes back when its time budget is used up.

use vstd::prelude::*;

use crate::breakpoints::at_breakpoint;
use crate::clock::{elapsed_nanos, now};
use crate::engine::{step, EngineState, HackEngine, RuntimeError, Step, StopReason, MEMORY_SIZE};

verus! {

/// Instructions between two looks at the clock.
pub const CHECKPOINT: u32 = 1000;

/// Most checkpoints that one run passes before it comes back whatever the clock says.
pub const MAX_CHECKPOINTS: u64 = 0xffff_ffff_ffff_ffff;

/// The machine after `n` instructions, none of which stopped the run.
pub open spec fn run(s: EngineState, key: u8, n: nat) -> EngineState
    decreases n,
{
    if n == 0 {
        s
    } else {
        step(run(s, key, (n - 1) as nat), key).state
    }
}

/// Whether a run that stands at `s` executes the instruction there and goes on.
pub open spec fn goes_on(s: EngineState, key: u8) -> bool {
    !at_breakpoint(s) && step(s, key).result == Ok::<Option<StopReason>, RuntimeError>(None)
}

/// Whether a run from `s` executes `n` instructions without a stop.
pub open spec fn runs_on(s: EngineState, key: u8, n: nat) -> bool {
    forall|k: nat| k < n ==> goes_on(#[trigger] run(s, key, k), key)
}

/// What a single step reports: a step that simply went on asks to be called again.
pub open spec fn report(result: Result<Option<StopReason>, RuntimeError>) -> Result<
    StopReason,
    RuntimeError,
> {
    match result {
        Ok(None) => Ok(StopReason::RefreshUI),
        Ok(Some(reason)) => Ok(reason),
        Err(e) => Err(e),
    }
}

/// The state in which a run leaves the machine when it stands at `s`, and
/// what it reports. A valid program counter on an enabled breakpoint stops
/// the run before the instruction; otherwise the instruction decides.
pub open spec fn halt_at(s: EngineState, key: u8) -> Step {
    if s.pc < MEMORY_SIZE && at_breakpoint(s) {
        Step { state: s, result: Ok(Some(StopReason::BreakPoint)) }
    } else {
        step(s, key)
    }
}

/// Whether a timed run from `s` can end after `n` instructions in state `f`
/// with the report `r`. It ends at the first state that does not go on, or
/// earlier at a checkpoint, where the program counter is valid and off every
/// enabled breakpoint.
pub open spec fn ends_run(
    s: EngineState,
    key: u8,
    n: nat,
    f: EngineState,
    r: Result<StopReason, RuntimeError>,
) -> bool {
    let sn = run(s, key, n);
    &&& runs_on(s, key, n)
    &&& {
        ||| {
            &&& n > 0
            &&& n % (CHECKPOINT as nat) == 0
            &&& sn.pc < MEMORY_SIZE
            &&& !at_breakpoint(sn)
            &&& f == sn
            &&& r == Ok::<StopReason, RuntimeError>(StopReason::RefreshUI)
        }
        ||| {
            &&& !goes_on(sn, key)
            &&& f == halt_at(sn, key).state
            &&& r == report(halt_at(sn, key).result)
        }
    }
}

impl HackEngine {
    /// Whether a run that has taken `elapsed` nanoseconds has used up a
    /// budget of `time_budget` nanoseconds.
    pub fn budget_spent(elapsed: u128, time_budget: u128) -> (spent: bool)
        ensures
            spent == (elapsed > time_budget),
    {
        elapsed > time_budget
    }

    /// Executes up to `limit` instructions and stops early at the first state
    /// that does not go on: a fault, a halt, a hard loop or an enabled
    /// breakpoint. Returns how many instructions went on, and the report of
    /// the stop if there was one.
    pub fn execute_batch(&mut self, limit: u32, key: u8) -> (r: (
        u32,
        Option<Result<StopReason, RuntimeError>>,
    ))
        ensures
            r.0 <= limit,
            runs_on(old(self)@, key, r.0 as nat),
            r.1 is None ==> r.0 == limit && final(self)@ == run(old(self)@, key, limit as nat),
            r.1 is Some ==> {
                let sn = run(old(self)@, key, r.0 as nat);
                &&& r.0 < limit
                &&& !goes_on(sn, key)
                &&& final(self)@ == halt_at(sn, key).state
                &&& r.1 == Some(report(halt_at(sn, key).result))
            },
    {
        let mut executed: u32 = 0;
        while executed < limit
            invariant
                executed <= limit,
                runs_on(old(self)@, key, executed as nat),
                self@ == run(old(self)@, key, executed as nat),
            decreases limit - executed,
        {
            if self.pc < MEMORY_SIZE && self.breakpoint_hit() {
                return (executed, Some(Ok(StopReason::BreakPoint)));
            }
            match self.execute_one(key) {
                Ok(None) => {},
                Ok(Some(reason)) => {
                    return (executed, Some(Ok(reason)));
                },
                Err(e) => {
                    return (executed, Some(Err(e)));
                },
            }
            executed = executed + 1;
        }
        (executed, None)
    }

    /// Runs the program until something stops it or the time is used up.
    ///
    /// With a `time_budget` of zero this is a single step: exactly one
    /// instruction is attempted, breakpoints are not looked at, and a step
    /// that went on reports `RefreshUI`. Otherwise the clock is read after
    /// every `CHECKPOINT` instructions, and once more than `time_budget`
    /// nanoseconds have passed the run reports `RefreshUI`. `key` is the byte
    /// that the keyboard holds during the run.
    pub fn execute_instructions(&mut self, time_budget: u128, key: u8) -> (r: Result<
        StopReason,
        RuntimeError,
    >)
        ensures
            time_budget == 0 ==> final(self)@ == step(old(self)@, key).state && r == report(
                step(old(self)@, key).result,
            ),
            time_budget != 0 ==> exists|n: nat| ends_run(old(self)@, key, n, final(self)@, r),
    {
        if time_budget == 0 {
            return match self.execute_one(key) {
                Ok(None) => Ok(StopReason::RefreshUI),
                Ok(Some(reason)) => Ok(reason),
                Err(e) => Err(e),
            };
        }
        let start = now();
        let mut checkpoints: u64 = 0;
        let ghost mut n: nat = 0;
        loop
            invariant
                time_budget != 0,
                checkpoints < MAX_CHECKPOINTS,
                runs_on(old(self)@, key, n),
                self@ == run(old(self)@, key, n),
                n == checkpoints * CHECKPOINT,
            decreases MAX_CHECKPOINTS - checkpoints,
        {
            let (executed, outcome) = self.execute_batch(CHECKPOINT, key);
            proof {
                lemma_runs_on_append(old(self)@, key, n, executed as nat);
                lemma_run_append(old(self)@, key, n, executed as nat);
                n = n + executed as nat;
            }
            match outcome {
                Some(report) => {
                    assert(ends_run(old(self)@, key, n, self@, report));
                    return report;
                },
                None => {},
            }
            if self.pc >= MEMORY_SIZE {
                assert(ends_run(old(self)@, key, n, self@, Err(RuntimeError::InvalidPC(self.pc))));
                return Err(RuntimeError::InvalidPC(self.pc));
            }
            if self.breakpoint_hit() {
                assert(ends_run(old(self)@, key, n, self@, Ok(StopReason::BreakPoint)));
                return Ok(StopReason::BreakPoint);
            }
            checkpoints = checkpoints + 1;
            assert(n == checkpoints * CHECKPOINT) by (nonlinear_arith)
                requires
                    n == (checkpoints - 1) * CHECKPOINT + CHECKPOINT,
            ;
            if checkpoints >= MAX_CHECKPOINTS || Self::budget_spent(elapsed_nanos(&start), time_budget) {
                assert(n % (CHECKPOINT as nat) == 0) by (nonlinear_arith)
                    requires
                        n == checkpoints * CHECKPOINT,
                        CHECKPOINT == 1000,
                ;
                assert(ends_run(old(self)@, key, n, self@, Ok(StopReason::RefreshUI)));
                return Ok(StopReason::RefreshUI);
            }
        }
    }
}

/// Running `m` instructions and then `k` more is running `m + k`.
pub proof fn lemma_run_append(s: EngineState, key: u8, m: nat, k: nat)
    ensures
        run(run(s, key, m), key, k) == run(s, key, m + k),
    decreases k,
{
    if k > 0 {
        lemma_run_append(s, key, m, (k - 1) as nat);
        assert(m + k - 1 == m + (k - 1) as nat);
    }
}

/// A run that goes on for `m` instructions, and from there for `k` more,
/// goes on for `m + k`.
pub proof fn lemma_runs_on_append(s: EngineState, key: u8, m: nat, k: nat)
    requires
        runs_on(s, key, m),
        runs_on(run(s, key, m), key, k),
    ensures
        runs_on(s, key, m + k),
{
    assert forall|j: nat| j < m + k implies goes_on(#[trigger] run(s, key, j), key) by {
        if j >= m {
            lemma_run_append(s, key, m, (j - m) as nat);
            assert(goes_on(run(run(s, key, m), key, (j - m) as nat), key));
        }
    }
}

} // verus!
