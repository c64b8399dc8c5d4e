use hackem::engine::{BreakPoint, HackEngine, RuntimeError, StopReason};

const MILLISECOND: u128 = 1_000_000;

fn counting_program() -> HackEngine {
    // D=D+1 at 0, then an endless jump back to it.
    let mut cpu = HackEngine::new();
    cpu.rom[0] = 0xe7d0; // D=D+1
    cpu.rom[1] = 0x0000; // @0
    cpu.rom[2] = 0xea87; // 0;JMP
    cpu
}

fn sum_program() -> HackEngine {
    let mut cpu = HackEngine::new();
    let words = [
        0x0002, 0x8c10, 0x0011, 0x8308, 0x000a, 0x8304, 0x0003, 0x8c10, 0x0010, 0x8308, 0x000a,
        0x8307,
    ];
    for (i, w) in words.iter().enumerate() {
        cpu.rom[i] = *w;
    }
    cpu
}

#[test]
fn new_engine_is_zeroed() {
    let cpu = HackEngine::new();
    assert_eq!(cpu.get_registers(), (0, 0, 0));
    assert_eq!(cpu.halt_addr, 0);
    assert_eq!(cpu.inst_count, 0);
    assert!(cpu.ram.iter().all(|w| *w == 0));
    assert!(cpu.rom.iter().all(|w| *w == 0));
    assert!(cpu.break_points.is_empty());
    let d = HackEngine::default();
    assert_eq!(d.get_registers(), (0, 0, 0));
}

#[test]
fn single_step_executes_exactly_one_instruction() {
    let mut cpu = sum_program();
    assert_eq!(cpu.execute_instructions(0, 0), Ok(StopReason::RefreshUI));
    assert_eq!(cpu.get_registers(), (1, 2, 0));
    assert_eq!(cpu.inst_count, 1);
    assert_eq!(cpu.execute_instructions(0, 0), Ok(StopReason::RefreshUI));
    assert_eq!(cpu.get_registers(), (2, 2, 2));
    assert_eq!(cpu.inst_count, 2);
}

#[test]
fn single_step_ignores_breakpoints() {
    let mut cpu = sum_program();
    cpu.add_breakpoint(0);
    assert_eq!(cpu.execute_instructions(0, 0), Ok(StopReason::RefreshUI));
    assert_eq!(cpu.pc, 1);
}

#[test]
fn timed_run_reaches_the_hard_loop() {
    let mut cpu = sum_program();
    assert_eq!(cpu.execute_instructions(50 * MILLISECOND, 0), Ok(StopReason::HardLoop));
    assert_eq!(cpu.ram[16], 3);
    assert_eq!(cpu.ram[17], 2);
    assert_eq!(cpu.pc, 10);
    assert_eq!(cpu.inst_count, 12);
}

#[test]
fn hard_loop_fires_on_first_pass() {
    let mut cpu = HackEngine::new();
    cpu.rom[5] = 0x0005;
    cpu.rom[6] = 0xea87;
    cpu.pc = 5;
    assert_eq!(cpu.execute_one(0), Ok(None));
    assert_eq!(cpu.execute_one(0), Ok(Some(StopReason::HardLoop)));
    assert_eq!(cpu.pc, 5);
    assert_eq!(cpu.inst_count, 2);
}

#[test]
fn hard_loop_fires_at_address_zero() {
    let mut cpu = HackEngine::new();
    cpu.rom[0] = 0x0000;
    cpu.rom[1] = 0xea87;
    assert_eq!(cpu.execute_instructions(MILLISECOND, 0), Ok(StopReason::HardLoop));
    assert_eq!(cpu.pc, 0);
    assert_eq!(cpu.inst_count, 2);
}

#[test]
fn timed_run_comes_back_at_a_checkpoint() {
    let mut cpu = counting_program();
    let r = cpu.execute_instructions(1, 0);
    assert_eq!(r, Ok(StopReason::RefreshUI));
    assert!(cpu.inst_count > 0);
    assert_eq!(cpu.inst_count % 1000, 0);
    let before = cpu.inst_count;
    assert_eq!(cpu.execute_instructions(2 * MILLISECOND, 0), Ok(StopReason::RefreshUI));
    assert!(cpu.inst_count > before);
    assert_eq!(cpu.inst_count % 1000, 0);
}

#[test]
fn breakpoint_stops_before_the_instruction() {
    let mut cpu = sum_program();
    cpu.add_breakpoint(6);
    assert_eq!(cpu.execute_instructions(50 * MILLISECOND, 0), Ok(StopReason::BreakPoint));
    assert_eq!(cpu.pc, 6);
    assert_eq!(cpu.inst_count, 6);
    assert_eq!(cpu.ram[17], 2);
    assert_eq!(cpu.ram[16], 0);
    assert_eq!(cpu.a, 10);
    assert_eq!(cpu.d, 2);
    // A second run stays on the breakpoint.
    assert_eq!(cpu.execute_instructions(50 * MILLISECOND, 0), Ok(StopReason::BreakPoint));
    assert_eq!(cpu.inst_count, 6);
    // A single step passes it.
    assert_eq!(cpu.execute_instructions(0, 0), Ok(StopReason::RefreshUI));
    assert_eq!(cpu.pc, 7);
    assert_eq!(cpu.a, 3);
    assert_eq!(cpu.execute_instructions(50 * MILLISECOND, 0), Ok(StopReason::HardLoop));
    assert_eq!(cpu.ram[16], 3);
}

#[test]
fn disabled_breakpoint_does_not_stop() {
    let mut cpu = sum_program();
    cpu.break_points.insert(6, BreakPoint { address: 6, enabled: false });
    assert_eq!(cpu.execute_instructions(50 * MILLISECOND, 0), Ok(StopReason::HardLoop));
}

#[test]
fn breakpoints_are_added_replaced_and_removed() {
    let mut cpu = sum_program();
    cpu.add_breakpoint(6);
    cpu.add_breakpoint(3);
    assert_eq!(cpu.break_points.len(), 2);
    cpu.break_points.insert(6, BreakPoint { address: 6, enabled: false });
    cpu.add_breakpoint(6);
    assert_eq!(cpu.break_points.len(), 2);
    assert_eq!(cpu.break_points.get(&6), Some(&BreakPoint { address: 6, enabled: true }));
    cpu.remove_breakpoint(6);
    cpu.remove_breakpoint(6);
    cpu.remove_breakpoint(100);
    assert_eq!(cpu.break_points.len(), 1);
    assert!(!cpu.breakpoint_hit());
    cpu.pc = 3;
    assert!(cpu.breakpoint_hit());
}

#[test]
fn batch_runs_the_number_asked_for() {
    let mut cpu = counting_program();
    assert_eq!(cpu.execute_batch(9, 0), (9, None));
    assert_eq!(cpu.d, 3);
    assert_eq!(cpu.pc, 0);
    assert_eq!(cpu.execute_batch(0, 0), (0, None));
    cpu.add_breakpoint(2);
    assert_eq!(cpu.execute_batch(100, 0), (2, Some(Ok(StopReason::BreakPoint))));
    assert_eq!(cpu.pc, 2);
    assert_eq!(cpu.d, 4);
}

#[test]
fn halt_address_stops_the_run() {
    let mut cpu = sum_program();
    cpu.halt_addr = 5;
    assert_eq!(cpu.execute_instructions(50 * MILLISECOND, 0), Ok(StopReason::SysHalt));
    assert_eq!(cpu.pc, 6);
    assert_eq!(cpu.inst_count, 6);
    assert_eq!(cpu.execute_instructions(0, 0), Ok(StopReason::SysHalt));
    assert_eq!(cpu.pc, 6);
    let mut top = HackEngine::new();
    top.halt_addr = 0xffff;
    assert_eq!(top.execute_one(0), Ok(None));
}

#[test]
fn invalid_pc_is_fatal() {
    let mut cpu = HackEngine::new();
    cpu.pc = 0x8000;
    assert_eq!(cpu.execute_instructions(0, 0), Err(RuntimeError::InvalidPC(0x8000)));
    assert_eq!(cpu.execute_instructions(MILLISECOND, 0), Err(RuntimeError::InvalidPC(0x8000)));
    cpu.add_breakpoint(0x8000);
    assert_eq!(cpu.execute_instructions(MILLISECOND, 0), Err(RuntimeError::InvalidPC(0x8000)));
    assert_eq!(cpu.inst_count, 0);
    // Running off the end of ROM.
    let mut end = HackEngine::new();
    end.pc = 0x7fff;
    assert_eq!(end.execute_instructions(MILLISECOND, 0), Err(RuntimeError::InvalidPC(0x8000)));
    assert_eq!(end.inst_count, 1);
}

#[test]
fn store_and_jump_is_an_invalid_instruction() {
    let mut cpu = HackEngine::new();
    cpu.rom[0] = 0xe30f; // M=D;JMP
    assert_eq!(cpu.execute_instructions(0, 0), Err(RuntimeError::InvalidInstruction));
    assert_eq!(cpu.pc, 1);
    assert_eq!(cpu.ram[0], 0);
    let mut timed = HackEngine::new();
    timed.rom[0] = 0xe309; // M=D;JGT
    assert_eq!(timed.execute_instructions(MILLISECOND, 0), Err(RuntimeError::InvalidInstruction));
}

#[test]
fn invalid_addresses_are_fatal() {
    let mut cpu = HackEngine::new();
    cpu.a = 0x9000;
    cpu.rom[0] = 0xfc10; // D=M
    assert_eq!(cpu.execute_one(0), Err(RuntimeError::InvalidReadAddress(0x9000)));
    assert_eq!(cpu.d, 0);
    let mut w = HackEngine::new();
    w.a = 0x8000;
    w.rom[0] = 0xefc8; // M=1
    assert_eq!(w.execute_one(0), Err(RuntimeError::InvalidWriteAddress(0x8000)));
    assert_eq!(w.get_ram(0x8000, 0), Err(RuntimeError::InvalidReadAddress(0x8000)));
    assert_eq!(w.set_ram(0xffff, 1), Err(RuntimeError::InvalidWriteAddress(0xffff)));
}

#[test]
fn keyboard_read_gives_the_key_supplied() {
    let mut cpu = HackEngine::new();
    assert_eq!(cpu.set_ram(0x6000, 0x1234), Ok(()));
    assert_eq!(cpu.ram[0x6000], 0x1234);
    assert_eq!(cpu.get_ram(0x6000, 65), Ok(65));
    assert_eq!(cpu.get_ram(0x6000, 0), Ok(0));
    assert_eq!(cpu.get_ram(0x5fff, 65), Ok(0));
    // D=M with A on the keyboard reads the key of this run.
    cpu.rom[0] = 0x6000;
    cpu.rom[1] = 0xfc10;
    cpu.execute_instructions(0, 97).unwrap();
    cpu.execute_instructions(0, 97).unwrap();
    assert_eq!(cpu.d, 97);
}

#[test]
fn memory_is_stored_in_every_range() {
    let mut cpu = HackEngine::new();
    for (addr, value) in [(0u16, 1u16), (0x3fff, 2), (0x4000, 3), (0x5fff, 4), (0x6001, 5), (0x7fff, 6)] {
        assert_eq!(cpu.set_ram(addr, value), Ok(()));
        assert_eq!(cpu.get_ram(addr, 9), Ok(value));
        assert_eq!(cpu.ram[addr as usize], value);
    }
}

#[test]
fn address_load_keeps_the_word() {
    let mut cpu = HackEngine::new();
    cpu.rom[0] = 0x7fff;
    cpu.execute_one(0).unwrap();
    assert_eq!(cpu.a, 0x7fff);
}

#[test]
fn destinations_are_written_from_one_output() {
    let mut cpu = HackEngine::new();
    cpu.a = 7;
    cpu.d = 5;
    cpu.rom[0] = 0xe0b8; // ADM=D+A
    assert_eq!(cpu.execute_one(0), Ok(None));
    assert_eq!(cpu.ram[7], 12);
    assert_eq!(cpu.d, 12);
    assert_eq!(cpu.a, 12);
    assert_eq!(cpu.pc, 1);
}

#[test]
fn jump_goes_to_the_address_of_before() {
    let mut cpu = HackEngine::new();
    cpu.a = 0x20;
    cpu.d = 3;
    cpu.rom[0] = 0xe327; // A=D;JMP
    assert_eq!(cpu.execute_one(0), Ok(None));
    assert_eq!(cpu.pc, 0x20);
    assert_eq!(cpu.a, 3);
}

#[test]
fn jump_may_leave_the_rom() {
    let mut cpu = HackEngine::new();
    cpu.a = 0xffff;
    cpu.rom[0] = 0xea87;
    assert_eq!(cpu.execute_one(0), Ok(None));
    assert_eq!(cpu.pc, 0xffff);
    assert_eq!(cpu.execute_one(0), Err(RuntimeError::InvalidPC(0xffff)));
}

#[test]
fn budget_is_spent_when_more_time_has_passed() {
    assert!(HackEngine::budget_spent(2, 1));
    assert!(!HackEngine::budget_spent(1, 1));
    assert!(!HackEngine::budget_spent(0, 1));
}

#[test]
fn alu_reads_only_six_bits() {
    assert_eq!(HackEngine::alu(12, 30, 0x02), 42);
    assert_eq!(HackEngine::alu(12, 30, 0xffc2), 42);
    assert_eq!(HackEngine::alu(0xffff, 1, 0x02), 0);
    assert_eq!(HackEngine::alu(0, 1, 0x13), 0xffff);
    assert_eq!(HackEngine::alu(0x00f0, 0x0ff0, 0x00), 0x00f0);
}

#[test]
fn runtime_error_messages() {
    assert_eq!(RuntimeError::InvalidInstruction.message(), "Invalid instruction");
    assert_eq!(RuntimeError::InvalidReadAddress(32768).message(), "Invalid RAM read address 32768");
    assert_eq!(RuntimeError::InvalidWriteAddress(0).message(), "Invalid RAM write address 0");
    assert_eq!(RuntimeError::InvalidPC(65535).message(), "Invalid instruction address 65535");
}

#[test]
fn operand_is_read_before_the_instruction_is_refused() {
    let mut cpu = HackEngine::new();
    cpu.a = 0x8000;
    cpu.rom[0] = 0xf30f; // M=M;JMP with A outside RAM
    assert_eq!(cpu.execute_one(0), Err(RuntimeError::InvalidReadAddress(0x8000)));
    let mut inside = HackEngine::new();
    inside.a = 0x10;
    inside.rom[0] = 0xf30f;
    assert_eq!(inside.execute_one(0), Err(RuntimeError::InvalidInstruction));
}

#[test]
fn only_a_used_up_budget_asks_for_another_run() {
    assert!(StopReason::RefreshUI.reenter());
    assert!(!StopReason::SysHalt.reenter());
    assert!(!StopReason::HardLoop.reenter());
    assert!(!StopReason::BreakPoint.reenter());
}
