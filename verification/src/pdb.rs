//! The program database: the symbols of a program and the source line of
//! each of its addresses, as they come from the tool that built the program.

use vstd::prelude::*;

verus! {

/// What a symbol names.
#[derive(Clone, Copy, Debug, PartialEq, Eq, Structural)]
pub enum SymbolType {
    Func,
    Label,
    Var,
    Unknown,
}

/// A name for an address.
#[derive(Debug)]
pub struct Symbol {
    pub name: String,
    pub address: u16,
    pub symbol_type: SymbolType,
}

/// The source line that an address was compiled from.
#[derive(Clone, Copy, Debug, PartialEq, Eq, Structural)]
pub struct SourceLine {
    /// Index of the file in the list of files.
    pub file: usize,
    pub line_no: usize,
    pub addr: u16,
}

/// A source file of the program.
#[derive(Debug)]
pub struct FileInfo {
    /// Path of the file.
    pub name: String,
}

/// The program database.
#[derive(Debug)]
pub struct Pdb {
    pub symbols: Vec<Symbol>,
    pub source_map: Vec<SourceLine>,
    pub file_info: Vec<FileInfo>,
}

/// A place in the source of the program.
#[derive(Debug)]
pub struct CodeLocation {
    pub module: Option<i32>,
    /// Index of the file in the list of files.
    pub cfile: Option<usize>,
    pub cline: usize,
    pub ctext: Option<String>,
    pub absaddr: u16,
}

impl Clone for Symbol {
    fn clone(&self) -> (copy: Symbol)
        ensures
            copy == *self,
    {
        Symbol { name: self.name.clone(), address: self.address, symbol_type: self.symbol_type }
    }
}

impl CodeLocation {
    /// The place that stands for an address of which no source line is known.
    pub fn unknown(addr: u16) -> (loc: CodeLocation)
        ensures
            loc == unknown_location(addr),
    {
        CodeLocation { module: None, cfile: None, cline: 0, ctext: None, absaddr: addr }
    }

    /// The place that a line of the source map names.
    pub fn of_line(line: &SourceLine) -> (loc: CodeLocation)
        ensures
            loc == location_of(*line),
    {
        CodeLocation {
            module: None,
            cfile: Some(line.file),
            cline: line.line_no,
            ctext: None,
            absaddr: line.addr,
        }
    }
}

impl Clone for CodeLocation {
    fn clone(&self) -> (copy: CodeLocation)
        ensures
            copy == *self,
    {
        let ctext = match &self.ctext {
            Some(text) => Some(text.clone()),
            None => None,
        };
        CodeLocation {
            module: self.module,
            cfile: self.cfile,
            cline: self.cline,
            ctext,
            absaddr: self.absaddr,
        }
    }
}

/// The place that stands for an address of which no source line is known:
/// no file, line 0.
pub open spec fn unknown_location(addr: u16) -> CodeLocation {
    CodeLocation { module: None, cfile: None, cline: 0, ctext: None, absaddr: addr }
}

/// The place that a line of the source map names.
pub open spec fn location_of(line: SourceLine) -> CodeLocation {
    CodeLocation {
        module: None,
        cfile: Some(line.file),
        cline: line.line_no,
        ctext: None,
        absaddr: line.addr,
    }
}

impl Pdb {
    /// A database without symbols, lines or files.
    pub fn new() -> (pdb: Pdb)
        ensures
            pdb.symbols@.len() == 0,
            pdb.source_map@.len() == 0,
            pdb.file_info@.len() == 0,
    {
        Pdb { symbols: Vec::new(), source_map: Vec::new(), file_info: Vec::new() }
    }
}

} // verus!
