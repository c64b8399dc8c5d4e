//! Expressions over the machine. They may name the registers, addresses
//! and symbols as variables, and `@` as the function that reads RAM.
//!
//! The expression itself is parsed and computed by an outside evaluator.
//! This module decides what each variable is worth and what `@` reads, and
//! brings the result down to 16 bits.

use vstd::prelude::*;
use vstd::string::StringExecFns;

use crate::debug_em::{resolve, HackSystem, Resolution};
use crate::engine::MEMORY_SIZE;
use crate::evaluator::{evaluable, evaluate_bound, may_stop, parse_names, parsed_calls, texts};
use crate::format::{decimal_text, push_decimal, push_signed, signed_text};

verus! {

/// Why a function call in an expression fails.
#[derive(Debug)]
pub enum ExprError {
    /// No function has this name.
    FunctionNotFound(String),
    /// The argument of `@` is not in the range 0 to 0xffff.
    OutOfRange(i64),
    /// The argument of `@` is an address at or above the size of RAM.
    InvalidAddress(u16),
    /// The evaluator could not parse or compute the expression; this is what it said.
    Evaluation(String),
}

/// What a failed evaluation says of itself.
pub open spec fn expr_error_text(e: ExprError) -> Seq<char> {
    match e {
        ExprError::FunctionNotFound(name) => "Function '"@ + name@ + "' not found"@,
        ExprError::OutOfRange(value) => "Address "@ + signed_text(value as int)
            + " is out of range"@,
        ExprError::InvalidAddress(address) => "Invalid RAM read address "@ + decimal_text(
            address as nat,
        ),
        ExprError::Evaluation(said) => said@,
    }
}

impl ExprError {
    /// What the failed evaluation says of itself.
    pub fn message(&self) -> (text: String)
        ensures
            text@ == expr_error_text(*self),
    {
        match self {
            ExprError::FunctionNotFound(name) => {
                let mut text = String::from_str("Function '");
                text.append(name.as_str());
                text.append("' not found");
                text
            },
            ExprError::OutOfRange(value) => {
                let mut text = String::from_str("Address ");
                push_signed(&mut text, *value);
                text.append(" is out of range");
                text
            },
            ExprError::InvalidAddress(address) => {
                let mut text = String::from_str("Invalid RAM read address ");
                push_decimal(&mut text, *address as u64);
                text
            },
            ExprError::Evaluation(said) => said.clone(),
        }
    }
}

/// The variables that an expression is computed with: of the names that it
/// reads, in their order, each that has a value, with that value.
pub open spec fn bindings_of(system: HackSystem, names: Seq<String>) -> Seq<(Seq<char>, i64)>
    decreases names.len(),
{
    if names.len() == 0 {
        Seq::empty()
    } else {
        let before = bindings_of(system, names.drop_last());
        match value_of(system, names.last()@) {
            Some(value) => before.push((names.last()@, value)),
            None => before,
        }
    }
}

/// The names and values of a list of variables.
pub open spec fn bound(bindings: Seq<(String, i64)>) -> Seq<(Seq<char>, i64)> {
    Seq::new(bindings.len(), |i: int| (bindings[i].0@, bindings[i].1))
}

/// The value of a variable: `.pc`, `.a` and `.d` are the registers, any
/// other name is an address as the session resolves it. A name that does
/// not resolve has no value.
pub open spec fn value_of(system: HackSystem, key: Seq<char>) -> Option<i64> {
    if key == ".pc"@ {
        Some(system.engine.pc as i64)
    } else if key == ".a"@ {
        Some(system.engine.a as i64)
    } else if key == ".d"@ {
        Some(system.engine.d as i64)
    } else {
        match resolve(system.pdb.symbols@, key) {
            Resolution::Literal(address) => Some(address as i64),
            Resolution::Named(address) => Some(address as i64),
            _ => None,
        }
    }
}

/// What a function call in an expression comes to.
pub enum Call {
    /// The word that RAM stores at the address given.
    Word(u16),
    FunctionNotFound,
    OutOfRange,
    InvalidAddress,
}

/// What `@` comes to for the argument `arg` while RAM holds `ram`. The
/// argument is an address from 0 to 0xffff, of which those below the size
/// of RAM hold a word.
pub open spec fn read_of(ram: Seq<u16>, arg: i64) -> Call {
    if arg < 0 || arg > 0xffff {
        Call::OutOfRange
    } else if arg >= MEMORY_SIZE {
        Call::InvalidAddress
    } else {
        Call::Word(ram[arg as int])
    }
}

/// What the call of `key` with `arg` comes to while RAM holds `ram`. The one function is `@`.
pub open spec fn call_of(ram: Seq<u16>, key: Seq<char>, arg: i64) -> Call {
    if key != "@"@ {
        Call::FunctionNotFound
    } else {
        read_of(ram, arg)
    }
}

/// Whether `r` says of the call of `key` with `arg` what `call` is.
pub open spec fn answers(r: Result<i64, ExprError>, call: Call, key: Seq<char>, arg: i64) -> bool {
    match call {
        Call::Word(word) => r matches Ok(v) && v == word,
        Call::FunctionNotFound => r matches Err(ExprError::FunctionNotFound(name)) && name@ == key,
        Call::OutOfRange => r matches Err(ExprError::OutOfRange(v)) && v == arg,
        Call::InvalidAddress => r matches Err(ExprError::InvalidAddress(a)) && a == arg,
    }
}

/// A 64-bit result as a 16-bit value: its residue modulo 2^16.
pub open spec fn wrap16(value: i64) -> u16 {
    (value as int % 0x10000) as u16
}

impl HackSystem {
    /// The value of the variable `key` in an expression.
    pub fn get_value(&self, key: &str) -> (value: Option<i64>)
        ensures
            value == value_of(*self, key@),
    {
        let name = String::from_str(key);
        if name == String::from_str(".pc") {
            Some(self.engine.pc as i64)
        } else if name == String::from_str(".a") {
            Some(self.engine.a as i64)
        } else if name == String::from_str(".d") {
            Some(self.engine.d as i64)
        } else {
            match self.convert_addr(key) {
                Ok((address, _)) => Some(address as i64),
                Err(_) => None,
            }
        }
    }

    /// The result of the function `key` applied to `arg` in an expression.
    /// The one function is `@`, which gives the word that RAM stores at the
    /// address `arg`.
    pub fn call_function(&self, key: &str, arg: i64) -> (r: Result<i64, ExprError>)
        ensures
            answers(r, call_of(self.engine.ram@, key@, arg), key@, arg),
    {
        if String::from_str(key) != String::from_str("@") {
            return Err(ExprError::FunctionNotFound(String::from_str(key)));
        }
        Self::read_word(&self.engine.ram, arg)
    }

    /// The word that RAM stores at the address `arg`: what `@` computes.
    /// The keyboard address gives what is stored there, not a key.
    pub fn read_word(ram: &[u16; 0x8000], arg: i64) -> (r: Result<i64, ExprError>)
        ensures
            answers(r, read_of(ram@, arg), Seq::empty(), arg),
    {
        if arg < 0 || arg > 0xffff {
            return Err(ExprError::OutOfRange(arg));
        }
        if arg >= MEMORY_SIZE as i64 {
            return Err(ExprError::InvalidAddress(arg as u16));
        }
        Ok(ram[arg as usize] as i64)
    }

    /// Gives each of `names` that has a value as a variable, with its value.
    pub fn bind_variables(&self, names: &Vec<String>) -> (bindings: Vec<(String, i64)>)
        ensures
            bound(bindings@) == bindings_of(*self, names@),
    {
        let mut bindings: Vec<(String, i64)> = Vec::new();
        let mut i: usize = 0;
        assert(names@.take(0) =~= Seq::<String>::empty());
        assert(bound(bindings@) =~= bindings_of(*self, names@.take(0)));
        while i < names.len()
            invariant
                i <= names@.len(),
                bound(bindings@) == bindings_of(*self, names@.take(i as int)),
            decreases names@.len() - i,
        {
            let ghost before = bindings@;
            assert(names@.take(i + 1).drop_last() =~= names@.take(i as int));
            match self.get_value(names[i].as_str()) {
                Some(value) => {
                    bindings.push((names[i].clone(), value));
                    assert(bound(bindings@) =~= bound(before).push((names@[i as int]@, value)));
                },
                None => {},
            }
            i = i + 1;
        }
        assert(names@.take(i as int) =~= names@);
        bindings
    }

    /// Whether `name` is a built-in function of the evaluator that can stop
    /// the program.
    pub fn stops(name: &str) -> (r: bool)
        ensures
            r == may_stop(name@),
    {
        let name = String::from_str(name);
        name == String::from_str("shl") || name == String::from_str("shr") || name
            == String::from_str("math::abs") || name == String::from_str("str::substring")
    }

    /// The first of `names` that is a built-in function which can stop the
    /// program, if there is one.
    pub fn first_that_stops(names: &Vec<String>) -> (found: Option<usize>)
        ensures
            match found {
                Some(at) => {
                    &&& at < names@.len()
                    &&& may_stop(names@[at as int]@)
                    &&& forall|i: int| 0 <= i < at ==> !may_stop(names@[i]@)
                },
                None => forall|i: int| 0 <= i < names@.len() ==> !may_stop(names@[i]@),
            },
    {
        let mut i: usize = 0;
        while i < names.len()
            invariant
                i <= names@.len(),
                forall|k: int| 0 <= k < i ==> !may_stop(names@[k]@),
            decreases names@.len() - i,
        {
            if Self::stops(names[i].as_str()) {
                return Some(i);
            }
            i = i + 1;
        }
        None
    }

    /// The 16-bit value of an expression over the registers, addresses and
    /// symbols of the session. The evaluator parses the expression and
    /// computes it with the variables that `bind_variables` gives and with
    /// `read_word` as `@`; the result is brought down to 16 bits by
    /// `truncate`. An expression that the parser refuses, or that calls one
    /// of the built-in functions that can stop the program, is not
    /// computed. Whatever fails, the error is the one evaluation error.
    pub fn evaluate(&self, expr: &str) -> (r: Result<u16, ExprError>)
        ensures
            r is Err ==> r->Err_0 is Evaluation,
            !evaluable(expr@) ==> r is Err,
    {
        let (functions, names) = match parse_names(expr) {
            Ok(names) => names,
            Err(said) => {
                return Err(ExprError::Evaluation(said));
            },
        };
        let ghost calls = parsed_calls(expr@)->Some_0;
        match Self::first_that_stops(&functions) {
            Some(at) => {
                assert(may_stop(calls[at as int])) by {
                    assert(texts(functions@)[at as int] == functions@[at as int]@);
                }
                let mut said = String::from_str("Function '");
                said.append(functions[at].as_str());
                said.append("' is not supported");
                return Err(ExprError::Evaluation(said));
            },
            None => {
                assert forall|i: int| 0 <= i < calls.len() implies !may_stop(
                    #[trigger] calls[i],
                ) by {
                    assert(texts(functions@)[i] == functions@[i]@);
                }
            },
        }
        let bindings = self.bind_variables(&names);
        match evaluate_bound(expr, &bindings, &self.engine.ram) {
            Ok(value) => Ok(Self::truncate(value)),
            Err(said) => Err(ExprError::Evaluation(said)),
        }
    }

    /// The 16-bit value of an expression whose 64-bit result is `value`.
    pub fn truncate(value: i64) -> (word: u16)
        ensures
            word == wrap16(value),
    {
        let low = value & 0xffff;
        assert(0 <= low <= 0xffff && low as int == value as int % 0x10000) by (bit_vector)
            requires
                low == value & 0xffff,
        ;
        low as u16
    }
}

} // verus!
