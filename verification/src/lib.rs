//! A simulator core for the 16-bit Hack computer, with the address and
//! symbol machinery of its debugger.
//!
//! The machine has three registers (PC, A, D), a six-bit ALU, 32K words of
//! RAM and of ROM, a memory-mapped screen and a memory-mapped keyboard.
//! Every executable function carries a contract over a mathematical model of
//! the machine, and the contracts are machine checked.
//!
//! The machine: `alu`, `engine`, `breakpoints`, `scheduler`, `screen`,
//! `keyboard`, with what holds of every run in `run_laws`. Programs:
//! `code_loader`, with what holds of every load in `loader_laws`, and
//! `disassemble`. The debugger: `pdb`, `source_index`, `pdbio`, `debug_em`,
//! `expr`, `shell`, `cpu_window`. Text and numbers: `text`, `format`. The
//! outside world: `clock` and `evaluator`.

pub mod alu;
pub mod breakpoints;
pub mod clock;
pub mod code_loader;
pub mod cpu_window;
pub mod debug_em;
pub mod disassemble;
pub mod engine;
pub mod evaluator;
pub mod expr;
pub mod format;
pub mod keyboard;
pub mod loader_laws;
pub mod pdb;
pub mod pdbio;
pub mod run_laws;
pub mod scheduler;
pub mod screen;
pub mod shell;
pub mod source_index;
pub mod text;
