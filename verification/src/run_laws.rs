//! What holds of every instruction and of every run: what the jump masks
//! compare, what a step leaves alone, where breakpoints stop a run, and
//! that the two-instruction self-jump ends it at once.

use vstd::prelude::*;

use crate::breakpoints::at_breakpoint;
use crate::engine::{
    at_halt, dest_mask, jump_mask, jump_taken, next_count, read_spec, reads_memory, signed, step,
    well_formed, EngineState, RuntimeError, StopReason, KEYBOARD, MEMORY_SIZE,
};
use crate::scheduler::{ends_run, goes_on, run};

verus! {

/// A read of the keyboard address gives the key that was supplied for that
/// read, whatever RAM stores.
pub proof fn lemma_keyboard_read_is_the_key(ram: Seq<u16>, key: u8)
    ensures
        read_spec(ram, KEYBOARD, key) == Ok::<u16, RuntimeError>(key as u16),
{
}

/// The eight jump masks are the eight comparisons of the ALU output, read
/// as a signed number, with zero: never, greater, equal, not less, less,
/// not equal, not greater, always.
pub proof fn lemma_jump_conditions(out: u16)
    ensures
        !jump_taken(0, out),
        jump_taken(1, out) == (signed(out) > 0),
        jump_taken(2, out) == (signed(out) == 0),
        jump_taken(3, out) == (signed(out) >= 0),
        jump_taken(4, out) == (signed(out) < 0),
        jump_taken(5, out) == (signed(out) != 0),
        jump_taken(6, out) == (signed(out) <= 0),
        jump_taken(7, out),
{
    assert(0u16 & 1 == 0 && 0u16 & 2 == 0 && 0u16 & 4 == 0) by (bit_vector);
    assert(1u16 & 1 != 0 && 1u16 & 2 == 0 && 1u16 & 4 == 0) by (bit_vector);
    assert(2u16 & 1 == 0 && 2u16 & 2 != 0 && 2u16 & 4 == 0) by (bit_vector);
    assert(3u16 & 1 != 0 && 3u16 & 2 != 0 && 3u16 & 4 == 0) by (bit_vector);
    assert(4u16 & 1 == 0 && 4u16 & 2 == 0 && 4u16 & 4 != 0) by (bit_vector);
    assert(5u16 & 1 != 0 && 5u16 & 2 == 0 && 5u16 & 4 != 0) by (bit_vector);
    assert(6u16 & 1 == 0 && 6u16 & 2 != 0 && 6u16 & 4 != 0) by (bit_vector);
    assert(7u16 & 1 != 0 && 7u16 & 2 != 0 && 7u16 & 4 != 0) by (bit_vector);
}

/// No instruction changes ROM, the halt address or the breakpoints, and
/// none changes the size of RAM.
pub proof fn lemma_step_keeps_the_program(s: EngineState, key: u8)
    requires
        well_formed(s),
    ensures
        step(s, key).state.rom == s.rom,
        step(s, key).state.halt_addr == s.halt_addr,
        step(s, key).state.break_points == s.break_points,
        well_formed(step(s, key).state),
{
}

/// The instruction counter never goes back: an instruction that is fetched
/// counts once, a step that fetches none leaves the counter.
pub proof fn lemma_count_never_goes_back(s: EngineState, key: u8)
    ensures
        step(s, key).state.inst_count == s.inst_count || step(s, key).state.inst_count
            == next_count(s.inst_count),
        step(s, key).state.inst_count >= s.inst_count,
        step(s, key).result == Ok::<Option<StopReason>, RuntimeError>(None) ==> step(
            s,
            key,
        ).state.inst_count == next_count(s.inst_count),
{
}

/// While a run goes on, the program counter is a valid address.
pub proof fn lemma_running_pc_is_valid(s: EngineState, key: u8, n: nat, k: nat)
    requires
        crate::scheduler::runs_on(s, key, n),
        k < n,
    ensures
        run(s, key, k).pc < MEMORY_SIZE,
{
    assert(goes_on(run(s, key, k), key));
}

/// An instruction that both stores to RAM[A] and jumps is never executed:
/// the step fails, and nothing but the program counter and the instruction
/// counter has changed.
pub proof fn lemma_store_and_jump_is_refused(s: EngineState, key: u8)
    requires
        s.pc < MEMORY_SIZE,
        !at_halt(s),
        s.rom[s.pc as int] >> 15 != 0,
        dest_mask(s.rom[s.pc as int]) & 0x1 != 0,
        jump_mask(s.rom[s.pc as int]) != 0,
    ensures
        step(s, key).result == if reads_memory(s.rom[s.pc as int]) && s.a >= MEMORY_SIZE {
            Err::<Option<StopReason>, RuntimeError>(RuntimeError::InvalidReadAddress(s.a))
        } else {
            Err::<Option<StopReason>, RuntimeError>(RuntimeError::InvalidInstruction)
        },
        step(s, key).state == (EngineState {
            pc: (s.pc + 1) as u16,
            inst_count: next_count(s.inst_count),
            ..s
        }),
{
}

/// No instruction reports a breakpoint: only the run does, before the instruction.
pub proof fn lemma_step_reports_no_breakpoint(s: EngineState, key: u8)
    ensures
        step(s, key).result != Ok::<Option<StopReason>, RuntimeError>(
            Some(StopReason::BreakPoint),
        ),
{
}

/// A timed run that reports a breakpoint has left the machine on an enabled
/// breakpoint, in the state that the instructions before it produced: the
/// instruction under the breakpoint has not run. No earlier state of the run
/// stood on an enabled breakpoint.
pub proof fn lemma_breakpoint_stops_before(
    s: EngineState,
    key: u8,
    n: nat,
    f: EngineState,
    r: Result<StopReason, RuntimeError>,
)
    requires
        ends_run(s, key, n, f, r),
        r == Ok::<StopReason, RuntimeError>(StopReason::BreakPoint),
    ensures
        f == run(s, key, n),
        f.pc < MEMORY_SIZE,
        at_breakpoint(f),
        forall|k: nat| k < n ==> !at_breakpoint(#[trigger] run(s, key, k)),
{
    lemma_step_reports_no_breakpoint(run(s, key, n), key);
}

/// A timed run does not pass an enabled breakpoint: if the machine stands on
/// one after `n` instructions, a run ends there or earlier, and where it
/// ends there it reports the breakpoint and leaves that state.
pub proof fn lemma_run_cannot_pass_breakpoint(
    s: EngineState,
    key: u8,
    n: nat,
    m: nat,
    f: EngineState,
    r: Result<StopReason, RuntimeError>,
)
    requires
        run(s, key, n).pc < MEMORY_SIZE,
        at_breakpoint(run(s, key, n)),
        ends_run(s, key, m, f, r),
    ensures
        m <= n,
        m == n ==> f == run(s, key, n) && r == Ok::<StopReason, RuntimeError>(
            StopReason::BreakPoint,
        ),
{
    if m > n {
        assert(goes_on(run(s, key, n), key));
    }
}

/// Whether ROM holds at `p` the load of `p` itself into A, followed by a
/// compute instruction that always jumps and stores nothing in RAM.
pub open spec fn self_jump_at(s: EngineState, p: u16) -> bool {
    let jump = s.rom[p + 1];
    &&& p + 1 < MEMORY_SIZE
    &&& s.rom[p as int] == p
    &&& jump >> 15 != 0
    &&& jump_mask(jump) == 0x7
    &&& dest_mask(jump) & 0x1 == 0
}

/// The halt address does not stand in the way of the two instructions at `p`.
pub open spec fn halt_clear_of(s: EngineState, p: u16) -> bool {
    s.halt_addr == 0 || (s.halt_addr + 1 != p && s.halt_addr != p)
}

/// The self-jump is detected on its first pass: the load goes on, and the
/// jump after it reports a hard loop with the program counter back on the load.
pub proof fn lemma_self_jump_is_hard_loop(s: EngineState, key: u8)
    requires
        self_jump_at(s, s.pc),
        halt_clear_of(s, s.pc),
    ensures
        step(s, key).result == Ok::<Option<StopReason>, RuntimeError>(None),
        step(s, key).state.pc == s.pc + 1,
        step(s, key).state.a == s.pc,
        step(step(s, key).state, key).result == Ok::<Option<StopReason>, RuntimeError>(
            Some(StopReason::HardLoop),
        ),
        step(step(s, key).state, key).state.pc == s.pc,
{
    let p = s.pc;
    assert(p >> 15 == 0) by (bit_vector)
        requires
            p < 0x8000,
    ;
    assert(0x7u16 & 0x1 != 0 && 0x7u16 & 0x2 != 0 && 0x7u16 & 0x4 != 0) by (bit_vector);
    let s1 = step(s, key).state;
    assert(!at_halt(s));
    assert(s1.pc == p + 1);
    assert(s1.rom == s.rom);
    assert(!at_halt(s1));
}

/// A timed run that starts on a self-jump, with no enabled breakpoint on
/// either instruction, ends after one instruction with the report of a hard loop.
pub proof fn lemma_run_ends_on_self_jump(
    s: EngineState,
    key: u8,
    n: nat,
    f: EngineState,
    r: Result<StopReason, RuntimeError>,
)
    requires
        self_jump_at(s, s.pc),
        halt_clear_of(s, s.pc),
        !(s.break_points.contains_key(s.pc) && s.break_points[s.pc].enabled),
        !(s.break_points.contains_key((s.pc + 1) as u16) && s.break_points[(s.pc + 1) as u16].enabled),
        ends_run(s, key, n, f, r),
    ensures
        n == 1,
        r == Ok::<StopReason, RuntimeError>(StopReason::HardLoop),
        f == step(step(s, key).state, key).state,
        f.pc == s.pc,
{
    lemma_self_jump_is_hard_loop(s, key);
    let s1 = step(s, key).state;
    assert(run(s, key, 0) == s);
    assert(run(s, key, 1) == s1);
    assert(goes_on(s, key));
    assert(s1.break_points == s.break_points);
    assert(!goes_on(s1, key));
    if n >= 2 {
        assert(goes_on(run(s, key, 1), key));
    }
    if n == 0 {
        assert(goes_on(run(s, key, 0), key));
    }
}

} // verus!
