//! The debugging session: an engine, the database of the program that it
//! runs, and the resolution of addresses that the user writes.

use vstd::prelude::*;
use vstd::slice::slice_subrange;
use vstd::string::StringExecFns;
use vstd::utf8::encode_utf8;

use crate::engine::HackEngine;
use crate::pdb::{Pdb, Symbol};
use crate::source_index::SourceIndex;
use crate::text::{
    has_hex_prefix, hex_prefixed, literal_value, parse_literal, DIGIT_0, DIGIT_9,
};

verus! {

/// The dollar sign, which begins a hexadecimal address.
pub const DOLLAR: u8 = 0x24;

/// A debugging session.
pub struct HackSystem {
    pub engine: HackEngine,
    pub pdb: Pdb,
    /// The source line of each address, made from the source map of `pdb`.
    pub waw: SourceIndex,
}

/// Why a text names no address. Each carries the text.
#[derive(Debug)]
pub enum AddressError {
    /// No symbol has this name.
    NotFound(String),
    /// More than one symbol has this name.
    Ambiguous(String),
    /// The text begins like a number and is none that fits in 16 bits.
    InvalidLiteral(String),
}

/// What a failed resolution says of itself.
pub open spec fn address_error_text(e: AddressError) -> Seq<char> {
    match e {
        AddressError::NotFound(name) => "Symbol '"@ + name@ + "' not found"@,
        AddressError::Ambiguous(name) => "Symbol '"@ + name@ + "' is ambiguous"@,
        AddressError::InvalidLiteral(text) => "Invalid address '"@ + text@ + "'"@,
    }
}

impl AddressError {
    /// What the failed resolution says of itself, with the text that did not resolve.
    pub fn message(&self) -> (text: String)
        ensures
            text@ == address_error_text(*self),
    {
        match self {
            AddressError::NotFound(name) => {
                let mut text = String::from_str("Symbol '");
                text.append(name.as_str());
                text.append("' not found");
                text
            },
            AddressError::Ambiguous(name) => {
                let mut text = String::from_str("Symbol '");
                text.append(name.as_str());
                text.append("' is ambiguous");
                text
            },
            AddressError::InvalidLiteral(literal) => {
                let mut text = String::from_str("Invalid address '");
                text.append(literal.as_str());
                text.append("'");
                text
            },
        }
    }
}

/// What a text resolves to.
pub enum Resolution {
    /// A number written out; no name goes with it.
    Literal(u16),
    /// The address of the one symbol of that name.
    Named(u16),
    InvalidLiteral,
    NotFound,
    Ambiguous,
}

/// The symbols of `symbols` whose name is `name`, in their order.
pub open spec fn symbols_named(symbols: Seq<Symbol>, name: Seq<char>) -> Seq<Symbol> {
    symbols.filter(|s: Symbol| s.name@ == name)
}

/// What a number literal resolves to.
pub open spec fn resolve_literal(value: Option<u16>) -> Resolution {
    match value {
        Some(address) => Resolution::Literal(address),
        None => Resolution::InvalidLiteral,
    }
}

/// What the text `text` resolves to among `symbols`. The UTF-8 bytes of
/// the text decide: after `$`, `0x` or `0X` it is a hexadecimal number; from
/// a decimal digit on a decimal number; else the name of a symbol.
pub open spec fn resolve(symbols: Seq<Symbol>, text: Seq<char>) -> Resolution {
    let bytes = encode_utf8(text);
    if bytes.len() > 0 && bytes[0] == DOLLAR {
        resolve_literal(literal_value(bytes.subrange(1, bytes.len() as int), 16))
    } else if has_hex_prefix(bytes) {
        resolve_literal(literal_value(bytes.subrange(2, bytes.len() as int), 16))
    } else if bytes.len() > 0 && DIGIT_0 <= bytes[0] <= DIGIT_9 {
        resolve_literal(literal_value(bytes, 10))
    } else {
        let found = symbols_named(symbols, text);
        if found.len() == 0 {
            Resolution::NotFound
        } else if found.len() == 1 {
            Resolution::Named(found[0].address)
        } else {
            Resolution::Ambiguous
        }
    }
}

/// Whether `r` says of the text `text` what `resolution` is.
pub open spec fn reports(
    r: Result<(u16, String), AddressError>,
    resolution: Resolution,
    text: Seq<char>,
) -> bool {
    match resolution {
        Resolution::Literal(address) => r matches Ok((a, name)) && a == address && name@.len() == 0,
        Resolution::Named(address) => r matches Ok((a, name)) && a == address && name@ == text,
        Resolution::InvalidLiteral => r matches Err(AddressError::InvalidLiteral(t)) && t@ == text,
        Resolution::NotFound => r matches Err(AddressError::NotFound(t)) && t@ == text,
        Resolution::Ambiguous => r matches Err(AddressError::Ambiguous(t)) && t@ == text,
    }
}

impl HackSystem {
    /// A session with a fresh engine and an empty database.
    pub fn new() -> (system: HackSystem)
        ensures
            system.engine@ == crate::engine::initial_state(),
            system.pdb.symbols@.len() == 0,
            system.pdb.source_map@.len() == 0,
            system.pdb.file_info@.len() == 0,
            system.waw@ == Map::<u16, crate::pdb::CodeLocation>::empty(),
    {
        HackSystem { engine: HackEngine::new(), pdb: Pdb::new(), waw: SourceIndex::new() }
    }

    /// The symbols whose name is `name`, in the order of the database.
    pub fn get_symbols(&self, name: &str) -> (found: Vec<Symbol>)
        ensures
            found@ == symbols_named(self.pdb.symbols@, name@),
    {
        let wanted = String::from_str(name);
        let mut found: Vec<Symbol> = Vec::new();
        let mut i: usize = 0;
        let ghost same = |s: Symbol| s.name@ == name@;
        proof {
            reveal(Seq::filter);
            assert(self.pdb.symbols@.take(0) =~= Seq::<Symbol>::empty());
        }
        while i < self.pdb.symbols.len()
            invariant
                i <= self.pdb.symbols@.len(),
                wanted@ == name@,
                same == |s: Symbol| s.name@ == name@,
                found@ == self.pdb.symbols@.take(i as int).filter(same),
            decreases self.pdb.symbols@.len() - i,
        {
            proof {
                reveal(Seq::filter);
                assert(self.pdb.symbols@.take(i + 1).drop_last() =~= self.pdb.symbols@.take(
                    i as int,
                ));
            }
            if self.pdb.symbols[i].name == wanted {
                found.push(self.pdb.symbols[i].clone());
            }
            i = i + 1;
        }
        assert(self.pdb.symbols@.take(i as int) =~= self.pdb.symbols@);
        found
    }

    /// The one symbol whose name is `name`. No symbol of that name is a
    /// failure, and so is more than one.
    pub fn lookup_symbol(&self, name: &str) -> (r: Result<Symbol, AddressError>)
        ensures
            match r {
                Ok(symbol) => symbols_named(self.pdb.symbols@, name@) == seq![symbol],
                Err(AddressError::NotFound(t)) => t@ == name@ && symbols_named(
                    self.pdb.symbols@,
                    name@,
                ).len() == 0,
                Err(AddressError::Ambiguous(t)) => t@ == name@ && symbols_named(
                    self.pdb.symbols@,
                    name@,
                ).len() > 1,
                Err(AddressError::InvalidLiteral(_)) => false,
            },
    {
        let mut found = self.get_symbols(name);
        if found.len() == 0 {
            Err(AddressError::NotFound(String::from_str(name)))
        } else if found.len() == 1 {
            let symbol = found.remove(0);
            assert(symbols_named(self.pdb.symbols@, name@) =~= seq![symbol]);
            Ok(symbol)
        } else {
            Err(AddressError::Ambiguous(String::from_str(name)))
        }
    }

    /// Turns the text of an address into the address, and the name of the
    /// symbol if it was given by one. A text that begins with `$`, `0x` or
    /// `0X` is a hexadecimal number, one that begins with a decimal digit is
    /// a decimal number, and any other is the name of a symbol.
    pub fn convert_addr(&self, addr_str: &str) -> (r: Result<(u16, String), AddressError>)
        ensures
            reports(r, resolve(self.pdb.symbols@, addr_str@), addr_str@),
    {
        let bytes = addr_str.as_bytes();
        let literal = if bytes.len() > 0 && bytes[0] == DOLLAR {
            Some(parse_literal(slice_subrange(bytes, 1, bytes.len()), 16))
        } else if hex_prefixed(bytes) {
            Some(parse_literal(slice_subrange(bytes, 2, bytes.len()), 16))
        } else if bytes.len() > 0 && DIGIT_0 <= bytes[0] && bytes[0] <= DIGIT_9 {
            Some(parse_literal(bytes, 10))
        } else {
            None
        };
        match literal {
            Some(Some(address)) => Ok((address, String::new())),
            Some(None) => Err(AddressError::InvalidLiteral(String::from_str(addr_str))),
            None => match self.lookup_symbol(addr_str) {
                Ok(symbol) => Ok((symbol.address, String::from_str(addr_str))),
                Err(e) => Err(e),
            },
        }
    }
}

impl Default for HackSystem {
    /// A session with a fresh engine and an empty database, as `new` makes it.
    fn default() -> (system: HackSystem)
        ensures
            system.engine@ == crate::engine::initial_state(),
            system.pdb.symbols@.len() == 0,
            system.pdb.source_map@.len() == 0,
            system.pdb.file_info@.len() == 0,
            system.waw@ == Map::<u16, crate::pdb::CodeLocation>::empty(),
    {
        HackSystem::new()
    }
}

} // verus!
