use hackem::cpu_window::CpuWindow;
use hackem::debug_em::{AddressError, HackSystem};
use hackem::engine::BreakPoint;
use hackem::expr::ExprError;
use hackem::code_loader::LoadError;
use hackem::pdb::{Pdb, SourceLine, Symbol, SymbolType};
use hackem::shell::{Command, Shell, ShellError};

fn session() -> HackSystem {
    let mut sys = HackSystem::new();
    sys.load_pdb(Pdb {
        symbols: vec![
            Symbol { name: "main".to_string(), address: 0x0100, symbol_type: SymbolType::Func },
            Symbol { name: "loop".to_string(), address: 0x0104, symbol_type: SymbolType::Label },
            Symbol { name: "remain".to_string(), address: 0x0010, symbol_type: SymbolType::Var },
            Symbol { name: "x".to_string(), address: 0xabcd, symbol_type: SymbolType::Unknown },
        ],
        source_map: vec![],
        file_info: vec![],
    });
    sys
}

#[test]
fn list_symbols_shows_every_symbol() {
    let shell = Shell::new();
    let sys = session();
    assert_eq!(
        shell.list_symbols(&sys, None),
        "0x0100 F main\n0x0104 L loop\n0x0010 V remain\n0xabcd ? x\n"
    );
    assert_eq!(shell.list_symbols(&HackSystem::new(), None), "");
}

#[test]
fn list_symbols_filters_by_part_of_the_name() {
    let shell = Shell::new();
    let sys = session();
    assert_eq!(shell.list_symbols(&sys, Some("main")), "0x0100 F main\n0x0010 V remain\n");
    assert_eq!(shell.list_symbols(&sys, Some("oo")), "0x0104 L loop\n");
    assert_eq!(shell.list_symbols(&sys, Some("")).lines().count(), 4);
    assert_eq!(shell.list_symbols(&sys, Some("mainly")), "");
    assert_eq!(shell.list_symbols(&sys, Some("n")), "0x0100 F main\n0x0010 V remain\n");
}

#[test]
fn expand_expr_evaluates_after_the_equals_sign() {
    let shell = Shell::new();
    let mut sys = session();
    sys.engine.pc = 0x1f;
    assert_eq!(shell.expand_expr("=.pc+1", &sys).unwrap(), "$20");
    assert_eq!(shell.expand_expr("=0", &sys).unwrap(), "$0");
    assert_eq!(shell.expand_expr("=main", &sys).unwrap(), "$100");
    assert_eq!(shell.expand_expr("=0-1", &sys).unwrap(), "$ffff");
    assert_eq!(shell.expand_expr("main", &sys).unwrap(), "main");
    assert_eq!(shell.expand_expr("", &sys).unwrap(), "");
    assert_eq!(shell.expand_expr(" =1", &sys).unwrap(), " =1");
    assert!(matches!(shell.expand_expr("=", &sys), Err(ExprError::Evaluation(_))));
    assert!(matches!(shell.expand_expr("=nothing", &sys), Err(ExprError::Evaluation(_))));
    assert_eq!(Shell::show_value(0xabc), "$abc");
}

#[test]
fn break_puts_a_breakpoint() {
    let shell = Shell::new();
    let mut sys = session();
    assert_eq!(shell.add_break("2a", &mut sys).unwrap(), "Added breakpoint at 0x002a");
    assert_eq!(sys.engine.break_points.get(&0x2a), Some(&BreakPoint { address: 0x2a, enabled: true }));
    assert_eq!(shell.add_break("=main+4", &mut sys).unwrap(), "Added breakpoint at 0x0104");
    assert!(sys.engine.break_points.contains_key(&0x0104));
    assert_eq!(sys.engine.break_points.len(), 2);
    match shell.add_break("main", &mut sys) {
        Err(ShellError::Address(AddressError::InvalidLiteral(t))) => assert_eq!(t, "main"),
        other => panic!("{:?}", other),
    }
    assert!(matches!(shell.add_break("=nothing", &mut sys), Err(ShellError::Expr(_))));
    assert_eq!(sys.engine.break_points.len(), 2);
}

#[test]
fn commands_answer() {
    let mut shell = Shell::new();
    let mut sys = session();
    let load = Command::LoadCode {
        file: "prog.hx".to_string(),
        text: "hackem v1.0 0x0010\nROM@0000\n0002\n".to_string(),
    };
    assert_eq!(shell.execute(load, &mut sys).unwrap(), "Loaded file prog.hx");
    assert_eq!(sys.engine.rom[0], 2);
    assert_eq!(sys.engine.halt_addr, 0x10);
    let bad = Command::LoadCode { file: "bad.hx".to_string(), text: "hackem v9 0x0".to_string() };
    assert!(matches!(shell.execute(bad, &mut sys), Err(ShellError::Load(LoadError::InvalidVersion))));
    let pdb = Pdb {
        symbols: vec![Symbol { name: "start".to_string(), address: 1, symbol_type: SymbolType::Label }],
        source_map: vec![SourceLine { file: 0, line_no: 5, addr: 1 }],
        file_info: vec![],
    };
    let take = Command::LoadPdb { file: "prog.pdb".to_string(), pdb };
    assert_eq!(shell.execute(take, &mut sys).unwrap(), "Loaded pdb file prog.pdb");
    assert_eq!(sys.where_are_we(3).cline, 5);
    assert_eq!(shell.execute(Command::ListSymbols(None), &mut sys).unwrap(), "0x0001 L start\n");
    assert_eq!(shell.execute(Command::ListSymbols(Some("q".to_string())), &mut sys).unwrap(), "");
    assert_eq!(shell.execute(Command::Expr("=start+1".to_string()), &mut sys).unwrap(), "$2");
    assert_eq!(shell.execute(Command::Expr("start".to_string()), &mut sys).unwrap(), "start");
    assert_eq!(shell.execute(Command::Break("10".to_string()), &mut sys).unwrap(), "Added breakpoint at 0x0010");
    assert!(sys.engine.break_points.contains_key(&0x10));
}

#[test]
fn failures_become_messages() {
    let mut shell = Shell::new();
    let mut sys = session();
    assert_eq!(shell.execute_message(Command::Break("zz".to_string()), &mut sys), "Invalid address 'zz'");
    assert_eq!(
        shell.execute_message(Command::LoadCode { file: "f".to_string(), text: "hackem v1.0 0x0000\n12\n".to_string() }, &mut sys),
        "Invalid literal"
    );
    assert_eq!(shell.execute_message(Command::Expr("x".to_string()), &mut sys), "x");
    assert!(!shell.execute_message(Command::Expr("=(".to_string()), &mut sys).is_empty());
    assert_eq!(ShellError::Load(LoadError::NoTarget).message(), "No target specified");
}

#[test]
fn memory_lines() {
    assert_eq!(Shell::show_memory(0, 0), "0x0000: 0000");
    assert_eq!(Shell::show_memory(0x3fff, 0xbeef), "0x3fff: beef");
    assert_eq!(Shell::kind_letter(SymbolType::Func), "F");
    assert_eq!(Shell::kind_letter(SymbolType::Label), "L");
    assert_eq!(Shell::kind_letter(SymbolType::Var), "V");
    assert_eq!(Shell::kind_letter(SymbolType::Unknown), "?");
}

#[test]
fn cpu_window_shows_registers() {
    let window = CpuWindow::new();
    assert_eq!(window.name(), "Cpu");
    let mut sys = HackSystem::new();
    sys.engine.pc = 0x00ab;
    sys.engine.a = 0xffff;
    sys.engine.d = 1;
    let rows = window.rows(&sys);
    assert_eq!(
        rows,
        vec![("PC: ", "0x00AB".to_string()), ("A: ", "0xFFFF".to_string()), ("D: ", "0x0001".to_string())]
    );
    assert_eq!(CpuWindow::show_register(0xbeef), "0xBEEF");
}
