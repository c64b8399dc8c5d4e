//! The outside expression evaluator. It parses and computes; what the
//! variables are worth and what `@` reads is decided by this library.

use vstd::prelude::*;
use evalexpr::{
    build_operator_tree, eval_int_with_context, ContextWithMutableFunctions,
    ContextWithMutableVariables, EvalexprError, Function, HashMapContext, Value,
};

use crate::debug_em::HackSystem;

verus! {

/// The names of the functions that an expression calls, one for each call,
/// as the tree that `evalexpr::build_operator_tree` makes of the expression
/// holds them; `None` for an expression that the parser refuses.
pub uninterp spec fn parsed_calls(expr: Seq<char>) -> Option<Seq<Seq<char>>>;

/// The texts of a list of strings.
pub open spec fn texts(names: Seq<String>) -> Seq<Seq<char>> {
    Seq::new(names.len(), |i: int| names[i]@)
}

/// Whether a built-in function of the evaluator can overflow or cut a
/// string inside a character, which stops the program: the two shifts, the
/// absolute value and the substring.
pub open spec fn may_stop(name: Seq<char>) -> bool {
    name == "shl"@ || name == "shr"@ || name == "math::abs"@ || name == "str::substring"@
}

/// Whether an expression parses and calls no function that can stop the program.
pub open spec fn evaluable(expr: Seq<char>) -> bool {
    match parsed_calls(expr) {
        Some(calls) => forall|i: int| 0 <= i < calls.len() ==> !may_stop(#[trigger] calls[i]),
        None => false,
    }
}

/// Calls `evalexpr::build_operator_tree` on the expression and gives the
/// names of the functions that it calls and of the variables that it
/// reads, one for each occurrence, as `Node::iter_function_identifiers` and
/// `Node::iter_read_variable_identifiers` list them. For an expression that
/// the parser refuses it gives the parser's message. The parser reads
/// nothing but the expression, so the names of the functions are a function
/// of it. Nothing is claimed of the names of the variables.
#[verifier::external_body]
pub(crate) fn parse_names(expr: &str) -> (r: Result<(Vec<String>, Vec<String>), String>)
    ensures
        match r {
            Ok(names) => parsed_calls(expr@) == Some(texts(names.0@)),
            Err(_) => parsed_calls(expr@) is None,
        },
{
    let tree = build_operator_tree(expr).map_err(|e| e.to_string())?;
    let functions = tree.iter_function_identifiers().map(|name| name.to_string()).collect();
    let variables = tree.iter_read_variable_identifiers().map(|name| name.to_string()).collect();
    Ok((functions, variables))
}

/// Calls `evalexpr::eval_int_with_context` on the expression, in a
/// `HashMapContext` that holds each of `bindings` as an integer variable and
/// `@` as the function that reads a word of `ram` through
/// `HackSystem::read_word`. The context is not changed by the evaluation.
/// The expression may call none of the built-in functions that stop the
/// program on some arguments. Nothing is claimed of the result: other
/// built-in functions compute in floating point, whose results differ
/// between machines.
#[verifier::external_body]
pub(crate) fn evaluate_bound(expr: &str, bindings: &Vec<(String, i64)>, ram: &[u16; 0x8000]) -> (r:
    Result<i64, String>)
    requires
        evaluable(expr@),
{
    let mut context = HashMapContext::new();
    for (name, value) in bindings {
        let _ = context.set_value(name.clone(), Value::Int(*value));
    }
    let memory = *ram;
    let read = Function::new(move |arg| {
        let word = HackSystem::read_word(&memory, arg.as_int()?);
        word.map(Value::Int).map_err(|e| EvalexprError::CustomMessage(e.message()))
    });
    let _ = context.set_function("@".to_string(), read);
    eval_int_with_context(expr, &context).map_err(|e| e.to_string())
}

} // verus!
