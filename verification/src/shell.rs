//! The debugger's commands, after the command line has been taken apart:
//! each command works on the session and answers with a text.

use vstd::prelude::*;
use vstd::string::{StrSliceExecFns, StringExecFns};
use vstd::utf8::encode_utf8;

use crate::code_loader::{load_error_text, load_spec, LoadError};
use crate::debug_em::{address_error_text, AddressError, HackSystem};
use crate::engine::{BreakPoint, EngineState};
use crate::expr::{expr_error_text, ExprError};
use crate::format::{hex4_text, hex_text, push_hex, push_hex4};
use crate::pdb::{Pdb, Symbol, SymbolType};
use crate::pdbio::index_of_lines;
use crate::text::{contains, contains_bytes, literal_value, parse_literal};

verus! {

/// The debugger's command interpreter. It holds no state.
pub struct Shell {}

/// A command, with what the command line gave for it.
#[derive(Debug)]
pub enum Command {
    /// Load the program text `text`, which was read from `file`.
    LoadCode { file: String, text: String },
    /// Take the database `pdb`, which was read from `file`.
    LoadPdb { file: String, pdb: Pdb },
    /// List the symbols, or those whose name holds the given text.
    ListSymbols(Option<String>),
    /// Show what an address or an expression comes to.
    Expr(String),
    /// Put a breakpoint on an address.
    Break(String),
}

/// Why a command failed.
#[derive(Debug)]
pub enum ShellError {
    Load(LoadError),
    Address(AddressError),
    Expr(ExprError),
}

/// The letter that stands for the kind of a symbol in a listing.
pub open spec fn kind_text(kind: SymbolType) -> Seq<char> {
    match kind {
        SymbolType::Func => "F"@,
        SymbolType::Label => "L"@,
        SymbolType::Var => "V"@,
        SymbolType::Unknown => "?"@,
    }
}

/// The line of a symbol in a listing: its address as `0x` and four
/// hexadecimal digits, the letter of its kind, and its name.
pub open spec fn symbol_line(symbol: Symbol) -> Seq<char> {
    "0x"@ + hex4_text(symbol.address, false) + " "@ + kind_text(symbol.symbol_type) + " "@
        + symbol.name@ + "\n"@
}

/// Whether a listing with the filter `filter` shows the symbol: without a
/// filter it shows all, with one those whose name holds the filter.
pub open spec fn shown(symbol: Symbol, filter: Option<Seq<char>>) -> bool {
    match filter {
        None => true,
        Some(part) => contains(encode_utf8(symbol.name@), encode_utf8(part)),
    }
}

/// The listing of `symbols` under the filter `filter`: the lines of the
/// symbols that it shows, in their order.
pub open spec fn listing(symbols: Seq<Symbol>, filter: Option<Seq<char>>) -> Seq<char>
    decreases symbols.len(),
{
    if symbols.len() == 0 {
        Seq::empty()
    } else {
        let before = listing(symbols.drop_last(), filter);
        if shown(symbols.last(), filter) {
            before + symbol_line(symbols.last())
        } else {
            before
        }
    }
}

/// What an expression that came to `value` is shown as: `$` and the value
/// in hexadecimal.
pub open spec fn expansion(value: u16) -> Seq<char> {
    "$"@ + hex_text(value as nat)
}

/// Whether `exp` is an expression to evaluate: it begins with `=`.
pub open spec fn is_expression(exp: Seq<char>) -> bool {
    exp.len() > 0 && exp[0] == '='
}

/// The answer to a new breakpoint on `address`.
pub open spec fn break_answer(address: u16) -> Seq<char> {
    "Added breakpoint at 0x"@ + hex4_text(address, false)
}

/// The engine with an enabled breakpoint put on `address`.
pub open spec fn with_breakpoint(engine: EngineState, address: u16) -> EngineState {
    EngineState {
        break_points: engine.break_points.insert(
            address,
            BreakPoint { address, enabled: true },
        ),
        ..engine
    }
}

/// A line of a memory dump: the address and the word, each as four
/// hexadecimal digits.
pub open spec fn memory_line(address: u16, word: u16) -> Seq<char> {
    "0x"@ + hex4_text(address, false) + ": "@ + hex4_text(word, false)
}

/// Whether a command has put a breakpoint on `address` and answered so.
pub open spec fn breakpoint_added(
    before: HackSystem,
    after: HackSystem,
    r: Result<String, ShellError>,
    address: u16,
) -> bool {
    &&& r is Ok
    &&& r->Ok_0@ == break_answer(address)
    &&& after.engine@ == with_breakpoint(before.engine@, address)
    &&& after.pdb == before.pdb
    &&& after.waw == before.waw
}

/// Whether the session `after` and the result `r` are what the command
/// `break` with the text `addr` leaves of the session `before`. A text that
/// begins with `=` is an expression, whose value is the address; any other
/// text writes the address in hexadecimal.
pub open spec fn break_done(
    before: HackSystem,
    addr: Seq<char>,
    after: HackSystem,
    r: Result<String, ShellError>,
) -> bool {
    if is_expression(addr) {
        &&& r is Ok ==> exists|address: u16| breakpoint_added(before, after, r, address)
        &&& r is Err ==> after == before && r->Err_0 is Expr
    } else {
        match literal_value(encode_utf8(addr), 16) {
            Some(address) => breakpoint_added(before, after, r, address),
            None => {
                &&& r matches Err(ShellError::Address(AddressError::InvalidLiteral(t))) && t@
                    == addr
                &&& after == before
            },
        }
    }
}

/// Whether the session `after` and the result `r` are what `command`
/// leaves of the session `before`.
pub open spec fn executed(
    before: HackSystem,
    command: Command,
    after: HackSystem,
    r: Result<String, ShellError>,
) -> bool {
    match command {
        Command::LoadCode { file, text } => {
            &&& after.pdb == before.pdb
            &&& after.waw == before.waw
            &&& match load_spec(before.engine@, encode_utf8(text@)) {
                Ok(engine) => {
                    &&& r is Ok
                    &&& r->Ok_0@ == "Loaded file "@ + file@
                    &&& after.engine@ == engine
                },
                Err(e) => r matches Err(ShellError::Load(x)) && x == e,
            }
        },
        Command::LoadPdb { file, pdb } => {
            &&& r is Ok
            &&& r->Ok_0@ == "Loaded pdb file "@ + file@
            &&& after.pdb == pdb
            &&& after.waw@ == index_of_lines(pdb.source_map@)
            &&& after.engine == before.engine
        },
        Command::ListSymbols(filter) => {
            &&& after == before
            &&& r is Ok
            &&& r->Ok_0@ == listing(
                before.pdb.symbols@,
                match filter {
                    Some(part) => Some(part@),
                    None => None,
                },
            )
        },
        Command::Expr(exp) => {
            &&& after == before
            &&& !is_expression(exp@) ==> r is Ok && r->Ok_0@ == exp@
            &&& is_expression(exp@) && r is Ok ==> exists|value: u16| r->Ok_0@ == expansion(value)
            &&& r is Err ==> r->Err_0 is Expr
        },
        Command::Break(addr) => break_done(before, addr@, after, r),
    }
}

/// What a failed command says of itself.
pub open spec fn shell_error_text(e: ShellError) -> Seq<char> {
    match e {
        ShellError::Load(e) => load_error_text(e),
        ShellError::Address(e) => address_error_text(e),
        ShellError::Expr(e) => expr_error_text(e),
    }
}

impl ShellError {
    /// What the failed command says of itself.
    pub fn message(&self) -> (text: String)
        ensures
            text@ == shell_error_text(*self),
    {
        match self {
            ShellError::Load(e) => e.message(),
            ShellError::Address(e) => e.message(),
            ShellError::Expr(e) => e.message(),
        }
    }
}

impl Shell {
    /// A command interpreter.
    pub fn new() -> (shell: Self)
        ensures
            shell == (Shell {  }),
    {
        Self {  }
    }

    /// The letter that stands for the kind of a symbol in a listing.
    pub fn kind_letter(kind: SymbolType) -> (letter: &'static str)
        ensures
            letter@ == kind_text(kind),
    {
        match kind {
            SymbolType::Func => "F",
            SymbolType::Label => "L",
            SymbolType::Var => "V",
            SymbolType::Unknown => "?",
        }
    }

    /// The symbols of the session, one on a line, or those of them whose
    /// name holds `filter`.
    pub fn list_symbols(&self, hacksys: &HackSystem, filter: Option<&str>) -> (text: String)
        ensures
            text@ == listing(
                hacksys.pdb.symbols@,
                match filter {
                    Some(part) => Some(part@),
                    None => None,
                },
            ),
    {
        let ghost wanted: Option<Seq<char>> = match filter {
            Some(part) => Some(part@),
            None => None,
        };
        let mut text = String::new();
        let mut i: usize = 0;
        assert(hacksys.pdb.symbols@.take(0) =~= Seq::<Symbol>::empty());
        while i < hacksys.pdb.symbols.len()
            invariant
                i <= hacksys.pdb.symbols@.len(),
                wanted == match filter {
                    Some(part) => Some(part@),
                    None => None,
                },
                text@ == listing(hacksys.pdb.symbols@.take(i as int), wanted),
            decreases hacksys.pdb.symbols@.len() - i,
        {
            let symbol = &hacksys.pdb.symbols[i];
            assert(hacksys.pdb.symbols@.take(i + 1).drop_last() =~= hacksys.pdb.symbols@.take(
                i as int,
            ));
            let show = match filter {
                None => true,
                Some(part) => contains_bytes(symbol.name.as_str().as_bytes(), part.as_bytes()),
            };
            if show {
                let ghost before = text@;
                text.append("0x");
                push_hex4(&mut text, symbol.address, false);
                text.append(" ");
                text.append(Self::kind_letter(symbol.symbol_type));
                text.append(" ");
                text.append(symbol.name.as_str());
                text.append("\n");
                assert(text@ =~= before + symbol_line(*symbol));
            }
            i = i + 1;
        }
        assert(hacksys.pdb.symbols@.take(i as int) =~= hacksys.pdb.symbols@);
        text
    }

    /// What an expression that came to `value` is shown as.
    pub fn show_value(value: u16) -> (text: String)
        ensures
            text@ == expansion(value),
    {
        let mut text = String::from_str("$");
        push_hex(&mut text, value);
        text
    }

    /// The text of an address as a command takes it: a text that begins
    /// with `=` is an expression, which is evaluated and shown as `$` and
    /// its value in hexadecimal; any other text stays as it is.
    pub fn expand_expr(&self, exp: &str, hacksys: &HackSystem) -> (r: Result<String, ExprError>)
        ensures
            !is_expression(exp@) ==> r is Ok && r->Ok_0@ == exp@,
            is_expression(exp@) && r is Ok ==> exists|value: u16| r->Ok_0@ == expansion(value),
            r is Err ==> r->Err_0 is Evaluation,
    {
        let n = exp.unicode_len();
        if n > 0 && exp.get_char(0) == '=' {
            match hacksys.evaluate(exp.substring_char(1, n)) {
                Ok(value) => Ok(Self::show_value(value)),
                Err(e) => Err(e),
            }
        } else {
            Ok(String::from_str(exp))
        }
    }

    /// Puts a breakpoint on the address that `addr` gives and answers with
    /// the address. A text that begins with `=` is an expression, whose
    /// value is the address; any other text writes the address in
    /// hexadecimal. Nothing changes if `addr` gives no address.
    pub fn add_break(&self, addr: &str, hacksys: &mut HackSystem) -> (r: Result<
        String,
        ShellError,
    >)
        ensures
            break_done(*old(hacksys), addr@, *final(hacksys), r),
    {
        let n = addr.unicode_len();
        let address = if n > 0 && addr.get_char(0) == '=' {
            match hacksys.evaluate(addr.substring_char(1, n)) {
                Ok(value) => value,
                Err(e) => {
                    return Err(ShellError::Expr(e));
                },
            }
        } else {
            match parse_literal(addr.as_bytes(), 16) {
                Some(address) => address,
                None => {
                    return Err(
                        ShellError::Address(AddressError::InvalidLiteral(String::from_str(addr))),
                    );
                },
            }
        };
        hacksys.engine.add_breakpoint(address);
        let mut text = String::from_str("Added breakpoint at 0x");
        push_hex4(&mut text, address, false);
        let r = Ok(text);
        assert(breakpoint_added(*old(hacksys), *hacksys, r, address));
        r
    }

    /// A line of a memory dump.
    pub fn show_memory(address: u16, word: u16) -> (text: String)
        ensures
            text@ == memory_line(address, word),
    {
        let mut text = String::from_str("0x");
        push_hex4(&mut text, address, false);
        text.append(": ");
        push_hex4(&mut text, word, false);
        text
    }

    /// Carries out a command on the session and gives its answer.
    pub fn execute(&mut self, command: Command, hacksys: &mut HackSystem) -> (r: Result<
        String,
        ShellError,
    >)
        ensures
            executed(*old(hacksys), command, *final(hacksys), r),
    {
        match command {
            Command::LoadCode { file, text } => {
                match hacksys.engine.load_file(text.as_str()) {
                    Ok(()) => {
                        let mut answer = String::from_str("Loaded file ");
                        answer.append(file.as_str());
                        Ok(answer)
                    },
                    Err(e) => Err(ShellError::Load(e)),
                }
            },
            Command::LoadPdb { file, pdb } => {
                hacksys.load_pdb(pdb);
                let mut answer = String::from_str("Loaded pdb file ");
                answer.append(file.as_str());
                Ok(answer)
            },
            Command::ListSymbols(filter) => {
                let text = match &filter {
                    Some(part) => self.list_symbols(hacksys, Some(part.as_str())),
                    None => self.list_symbols(hacksys, None),
                };
                Ok(text)
            },
            Command::Expr(exp) => {
                match self.expand_expr(exp.as_str(), hacksys) {
                    Ok(text) => Ok(text),
                    Err(e) => Err(ShellError::Expr(e)),
                }
            },
            Command::Break(addr) => self.add_break(addr.as_str(), hacksys),
        }
    }

    /// Carries out a command and gives its answer, or what its failure says of itself.
    pub fn execute_message(&mut self, command: Command, hacksys: &mut HackSystem) -> (text: String)
        ensures
            exists|r: Result<String, ShellError>|
                {
                    &&& #[trigger] executed(*old(hacksys), command, *final(hacksys), r)
                    &&& text@ == match r {
                        Ok(answer) => answer@,
                        Err(e) => shell_error_text(e),
                    }
                },
    {
        let r = self.execute(command, hacksys);
        let text = match &r {
            Ok(answer) => answer.clone(),
            Err(e) => e.message(),
        };
        assert(executed(*old(hacksys), command, *hacksys, r));
        text
    }
}

} // verus!
