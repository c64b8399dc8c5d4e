//! The CPU engine: registers, memories, and the rule by which one
//! instruction changes them.

use vstd::prelude::*;
use std::collections::BTreeMap;

use vstd::string::StringExecFns;

use crate::alu::alu_spec;
use crate::format::{decimal_text, push_decimal};

verus! {

/// Number of words in RAM and in ROM. Addresses at or above it are invalid.
pub const MEMORY_SIZE: u16 = 0x8000;

/// Address of the memory-mapped keyboard.
pub const KEYBOARD: u16 = 0x6000;

/// First address of the memory-mapped screen.
pub const SCREEN_START: u16 = 0x4000;

/// A stop that the debugger placed on an instruction address.
#[derive(Clone, Copy, Debug, PartialEq, Eq)]
pub struct BreakPoint {
    pub address: u16,
    pub enabled: bool,
}

/// Why a bounded run came back. None of these is an error.
#[derive(Clone, Copy, Debug, PartialEq, Eq, Structural)]
pub enum StopReason {
    /// The time budget is used up, or the single step is done: call again to go on.
    RefreshUI,
    /// The program counter reached the instruction after the halt address.
    SysHalt,
    /// A jump landed on the address load just before it: the program spins in place.
    HardLoop,
    /// The program counter is at an enabled breakpoint; that instruction has not run.
    BreakPoint,
}

impl StopReason {
    /// Whether the run is to be entered again: it only came back because
    /// its time was used up or its single step was done. After any other
    /// stop the program stands still until the user acts.
    pub fn reenter(&self) -> (again: bool)
        ensures
            again == (*self is RefreshUI),
    {
        match self {
            StopReason::RefreshUI => true,
            _ => false,
        }
    }
}

/// A fault that ends the current run.
#[derive(Clone, Copy, Debug, PartialEq, Eq, Structural)]
pub enum RuntimeError {
    /// The instruction both writes RAM[A] and jumps.
    InvalidInstruction,
    /// A read of RAM at this address, which is not below `MEMORY_SIZE`.
    InvalidReadAddress(u16),
    /// A write of RAM at this address, which is not below `MEMORY_SIZE`.
    InvalidWriteAddress(u16),
    /// The program counter holds this value, which is not below `MEMORY_SIZE`.
    InvalidPC(u16),
}

/// What a fault says of itself.
pub open spec fn runtime_error_text(e: RuntimeError) -> Seq<char> {
    match e {
        RuntimeError::InvalidInstruction => "Invalid instruction"@,
        RuntimeError::InvalidReadAddress(address) => "Invalid RAM read address "@ + decimal_text(
            address as nat,
        ),
        RuntimeError::InvalidWriteAddress(address) => "Invalid RAM write address "@ + decimal_text(
            address as nat,
        ),
        RuntimeError::InvalidPC(address) => "Invalid instruction address "@ + decimal_text(
            address as nat,
        ),
    }
}

impl RuntimeError {
    /// What the fault says of itself, with its address in decimal.
    pub fn message(&self) -> (text: String)
        ensures
            text@ == runtime_error_text(*self),
    {
        match self {
            RuntimeError::InvalidInstruction => String::from_str("Invalid instruction"),
            RuntimeError::InvalidReadAddress(address) => {
                let mut text = String::from_str("Invalid RAM read address ");
                push_decimal(&mut text, *address as u64);
                text
            },
            RuntimeError::InvalidWriteAddress(address) => {
                let mut text = String::from_str("Invalid RAM write address ");
                push_decimal(&mut text, *address as u64);
                text
            },
            RuntimeError::InvalidPC(address) => {
                let mut text = String::from_str("Invalid instruction address ");
                push_decimal(&mut text, *address as u64);
                text
            },
        }
    }
}

/// The state of the machine.
pub struct HackEngine {
    pub pc: u16,
    pub a: u16,
    pub d: u16,
    pub ram: [u16; 0x8000],
    pub rom: [u16; 0x8000],
    /// Address of the halt routine; 0 when the program has none.
    pub halt_addr: u16,
    /// Instructions fetched since the engine was made. It never wraps.
    pub inst_count: u64,
    pub break_points: BTreeMap<u16, BreakPoint>,
}

/// The machine as a mathematical value.
pub struct EngineState {
    pub pc: u16,
    pub a: u16,
    pub d: u16,
    pub ram: Seq<u16>,
    pub rom: Seq<u16>,
    pub halt_addr: u16,
    pub inst_count: u64,
    pub break_points: Map<u16, BreakPoint>,
}

/// A machine state and what the instruction that led to it reported:
/// `Ok(None)` when execution simply goes on.
pub struct Step {
    pub state: EngineState,
    pub result: Result<Option<StopReason>, RuntimeError>,
}

impl View for HackEngine {
    type V = EngineState;

    open spec fn view(&self) -> EngineState {
        EngineState {
            pc: self.pc,
            a: self.a,
            d: self.d,
            ram: self.ram@,
            rom: self.rom@,
            halt_addr: self.halt_addr,
            inst_count: self.inst_count,
            break_points: self.break_points@,
        }
    }
}

/// Whether a state has memories of the machine's size. The state of every
/// engine has.
pub open spec fn well_formed(s: EngineState) -> bool {
    s.ram.len() == MEMORY_SIZE && s.rom.len() == MEMORY_SIZE
}

/// The machine after power-up: everything zero, no breakpoints.
pub open spec fn initial_state() -> EngineState {
    EngineState {
        pc: 0,
        a: 0,
        d: 0,
        ram: Seq::new(0x8000, |i: int| 0u16),
        rom: Seq::new(0x8000, |i: int| 0u16),
        halt_addr: 0,
        inst_count: 0,
        break_points: Map::empty(),
    }
}

/// What a read of RAM at `address` gives while the keyboard holds `key`.
/// The keyboard address never shows what RAM stores there.
pub open spec fn read_spec(ram: Seq<u16>, address: u16, key: u8) -> Result<u16, RuntimeError> {
    if address >= MEMORY_SIZE {
        Err(RuntimeError::InvalidReadAddress(address))
    } else if address == KEYBOARD {
        Ok(key as u16)
    } else {
        Ok(ram[address as int])
    }
}

/// A 16-bit word read as a two's complement number.
pub open spec fn signed(word: u16) -> int {
    if word < 0x8000 { word as int } else { word - 0x10000 }
}

/// Bit 12 of a compute instruction: the ALU's y operand is RAM[A], not A.
pub open spec fn reads_memory(instruction: u16) -> bool {
    (instruction >> 12) & 0x1 != 0
}

/// Bits 11 to 6 of a compute instruction: the ALU control code.
pub open spec fn comp_code(instruction: u16) -> u16 {
    (instruction >> 6) & 0x3f
}

/// Bits 5 to 3 of a compute instruction: bit 2 stores to A, bit 1 to D, bit 0 to RAM[A].
pub open spec fn dest_mask(instruction: u16) -> u16 {
    (instruction >> 3) & 0x7
}

/// Bits 2 to 0 of a compute instruction: bit 2 jumps on a negative output,
/// bit 1 on zero, bit 0 on a positive one.
pub open spec fn jump_mask(instruction: u16) -> u16 {
    instruction & 0x7
}

/// Whether a jump mask fires on an ALU output, read as a signed number.
pub open spec fn jump_taken(jump: u16, out: u16) -> bool {
    ||| jump & 0x1 != 0 && signed(out) > 0
    ||| jump & 0x2 != 0 && signed(out) == 0
    ||| jump & 0x4 != 0 && signed(out) < 0
}

/// The instruction counter after one more fetch. It never wraps.
pub open spec fn next_count(count: u64) -> u64 {
    if count < u64::MAX { (count + 1) as u64 } else { count }
}

/// A compute instruction, applied to the state `f` in which the program
/// counter is already advanced. The operand is read first; an instruction
/// that both stores to RAM[A] and jumps is refused; the destinations are
/// written from the one ALU output, RAM[A] at the A of before; a jump goes
/// to the A of before. A jump that lands two below the advanced program
/// counter, on the address load that stands just before the jump, is a hard loop.
pub open spec fn compute(f: EngineState, instruction: u16, key: u8) -> Step {
    let dest = dest_mask(instruction);
    let jump = jump_mask(instruction);
    let stores = dest & 0x1 != 0;
    if reads_memory(instruction) && f.a >= MEMORY_SIZE {
        Step { state: f, result: Err(RuntimeError::InvalidReadAddress(f.a)) }
    } else if jump != 0 && stores {
        Step { state: f, result: Err(RuntimeError::InvalidInstruction) }
    } else if stores && f.a >= MEMORY_SIZE {
        Step { state: f, result: Err(RuntimeError::InvalidWriteAddress(f.a)) }
    } else {
        let y = if reads_memory(instruction) { read_spec(f.ram, f.a, key)->Ok_0 } else { f.a };
        let out = alu_spec(f.d, y, comp_code(instruction));
        let taken = jump_taken(jump, out);
        let state = EngineState {
            pc: if taken { f.a } else { f.pc },
            a: if dest & 0x4 != 0 { out } else { f.a },
            d: if dest & 0x2 != 0 { out } else { f.d },
            ram: if stores { f.ram.update(f.a as int, out) } else { f.ram },
            ..f
        };
        let result = if taken && f.a + 2 == f.pc {
            Ok(Some(StopReason::HardLoop))
        } else {
            Ok(None)
        };
        Step { state, result }
    }
}

/// Whether the program counter stands on the instruction after the halt address.
pub open spec fn at_halt(s: EngineState) -> bool {
    s.halt_addr != 0 && s.pc == s.halt_addr + 1
}

/// One instruction: check the program counter, look for the halt address,
/// fetch ROM[PC], advance the program counter, and execute. An instruction
/// whose top bit is clear loads itself into A.
pub open spec fn step(s: EngineState, key: u8) -> Step {
    if s.pc >= MEMORY_SIZE {
        Step { state: s, result: Err(RuntimeError::InvalidPC(s.pc)) }
    } else if at_halt(s) {
        Step { state: s, result: Ok(Some(StopReason::SysHalt)) }
    } else {
        let instruction = s.rom[s.pc as int];
        let fetched = EngineState {
            pc: (s.pc + 1) as u16,
            inst_count: next_count(s.inst_count),
            ..s
        };
        if instruction >> 15 == 0 {
            Step { state: EngineState { a: instruction, ..fetched }, result: Ok(None) }
        } else {
            compute(fetched, instruction, key)
        }
    }
}

impl HackEngine {
    /// The state of an engine has memories of the machine's size.
    pub proof fn lemma_well_formed(&self)
        ensures
            well_formed(self@),
    {
    }

    /// A machine with zeroed registers and memories, no halt address and no breakpoints.
    pub fn new() -> (engine: HackEngine)
        ensures
            engine@ == initial_state(),
    {
        let engine = HackEngine {
            pc: 0,
            a: 0,
            d: 0,
            ram: [0; 0x8000],
            rom: [0; 0x8000],
            halt_addr: 0,
            inst_count: 0,
            break_points: BTreeMap::new(),
        };
        assert(engine@.ram =~= initial_state().ram);
        assert(engine@.rom =~= initial_state().rom);
        engine
    }

    /// The program counter and the A and D registers, in that order.
    pub fn get_registers(&self) -> (regs: (u16, u16, u16))
        ensures
            regs == (self.pc, self.a, self.d),
    {
        (self.pc, self.a, self.d)
    }

    /// Reads RAM at `address` while the keyboard holds `key`.
    pub fn get_ram(&self, address: u16, key: u8) -> (r: Result<u16, RuntimeError>)
        ensures
            r == read_spec(self.ram@, address, key),
    {
        if address >= MEMORY_SIZE {
            return Err(RuntimeError::InvalidReadAddress(address));
        }
        if address == KEYBOARD {
            return Ok(key as u16);
        }
        Ok(self.ram[address as usize])
    }

    /// Stores `value` in RAM at `address`. The screen and keyboard ranges
    /// are stored like any other word.
    pub fn set_ram(&mut self, address: u16, value: u16) -> (r: Result<(), RuntimeError>)
        ensures
            address < MEMORY_SIZE ==> r == Ok::<(), RuntimeError>(()) && final(self)@ == (EngineState {
                ram: old(self)@.ram.update(address as int, value),
                ..old(self)@
            }),
            address >= MEMORY_SIZE ==> r == Err::<(), RuntimeError>(
                RuntimeError::InvalidWriteAddress(address),
            ) && final(self)@ == old(self)@,
    {
        if address >= MEMORY_SIZE {
            return Err(RuntimeError::InvalidWriteAddress(address));
        }
        self.ram[address as usize] = value;
        Ok(())
    }

    /// Executes the instruction at the program counter, or reports why it cannot.
    pub fn execute_one(&mut self, key: u8) -> (r: Result<Option<StopReason>, RuntimeError>)
        ensures
            final(self)@ == step(old(self)@, key).state,
            r == step(old(self)@, key).result,
    {
        if self.pc >= MEMORY_SIZE {
            return Err(RuntimeError::InvalidPC(self.pc));
        }
        if self.halt_addr != 0 && self.pc > self.halt_addr && self.pc - self.halt_addr == 1 {
            return Ok(Some(StopReason::SysHalt));
        }
        let instruction = self.rom[self.pc as usize];
        self.pc = self.pc + 1;
        if self.inst_count < u64::MAX {
            self.inst_count = self.inst_count + 1;
        }
        if instruction >> 15 == 0 {
            self.a = instruction;
            return Ok(None);
        }
        let from_memory = (instruction >> 12) & 0x1 != 0;
        let code = (instruction >> 6) & 0x3f;
        let dest = (instruction >> 3) & 0x7;
        let jump = instruction & 0x7;
        let stores = dest & 0x1 != 0;
        let target = self.a;
        let y = if from_memory {
            match self.get_ram(target, key) {
                Ok(word) => word,
                Err(e) => {
                    return Err(e);
                },
            }
        } else {
            target
        };
        if jump != 0 && stores {
            return Err(RuntimeError::InvalidInstruction);
        }
        let out = Self::alu(self.d, y, code);
        if stores {
            match self.set_ram(target, out) {
                Ok(()) => {},
                Err(e) => {
                    return Err(e);
                },
            }
        }
        if dest & 0x2 != 0 {
            self.d = out;
        }
        if dest & 0x4 != 0 {
            self.a = out;
        }
        let positive = out != 0 && out < 0x8000;
        let negative = out >= 0x8000;
        let taken = (jump & 0x1 != 0 && positive) || (jump & 0x2 != 0 && out == 0) || (jump & 0x4
            != 0 && negative);
        if taken {
            let fallthrough = self.pc;
            self.pc = target;
            if target < fallthrough && fallthrough - target == 2 {
                return Ok(Some(StopReason::HardLoop));
            }
        }
        Ok(None)
    }
}

impl Default for HackEngine {
    /// A machine after power-up, as `new` makes it.
    fn default() -> (engine: HackEngine)
        ensures
            engine@ == initial_state(),
    {
        HackEngine::new()
    }
}

} // verus!
