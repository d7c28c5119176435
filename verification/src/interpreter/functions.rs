//! Entering a function.

use crate::errors::CompilerError;
use crate::grammar::{Definition, Function, Signature};
use crate::interpreter::environment::Environment;
use crate::interpreter::fractions::Fractions;
use crate::interpreter::meaning::{
    arity_mismatch_message, failed, function_value, name_value, HaltView,
};
use crate::interpreter::{agrees, expressions, failure, Halt};
use crate::text::push_usize;
use crate::tokens::{Identifier, Value};
use vstd::prelude::*;
use vstd::string::*;

verus! {

/// Evaluates the body of `function` in `env`, provided that its signature and
/// its definition agree on the number of parameters and that `depth` is not
/// used up.
pub fn eval(env: &Environment, function: &Function, fractions: &Fractions, depth: usize) -> (result:
    Result<Option<Value>, Halt>)
    ensures
        agrees(result, function_value(fractions@, env@, function@, depth as nat)),
    decreases depth, 0nat,
{
    let signature = &function.signature;
    let definition = &function.definition;
    match validate_arity(signature, definition) {
        Ok(()) => {},
        Err(error) => {
            return Err(Halt::Failed(error));
        },
    }
    if depth == 0 {
        return Err(failure("recursion limit exceeded", definition.name.line));
    }
    let expr = &definition.body;
    expressions::eval(env, expr, fractions, depth - 1)
}

/// A signature must declare as many parameters as the definition names.
pub fn validate_arity(signature: &Signature, definition: &Definition) -> (result: Result<
    (),
    CompilerError,
>)
    ensures
        signature@.parameters.len() == definition@.parameters.len() ==> result is Ok,
        signature@.parameters.len() != definition@.parameters.len() ==> (result matches Err(e)
            && HaltView::Failed(e@) == failed(
            arity_mismatch_message(signature@.parameters.len(), definition@.parameters.len()),
            definition@.name.line,
        )),
{
    if signature.parameters.len() != definition.parameters.len() {
        let mut error = String::from_str(
            "function signature and definition arity mismatch: expected ",
        );
        push_usize(&mut error, signature.parameters.len());
        error.append(" parameters, found ");
        push_usize(&mut error, definition.parameters.len());
        return Err(CompilerError::Interpreter(error, definition.name.line));
    }
    Ok(())
}

/// What a name that stands alone evaluates to; `missing` is the error where
/// the name means nothing.
pub fn eval_alone(
    env: &Environment,
    id: &Identifier,
    missing: Halt,
    fractions: &Fractions,
    depth: usize,
) -> (result: Result<Option<Value>, Halt>)
    ensures
        agrees(result, name_value(fractions@, env@, id@, missing@, depth as nat)),
    decreases depth, 1nat,
{
    match env.get(id) {
        Some(function) => eval(env, function, fractions, depth),
        None => Err(missing),
    }
}

} // verus!
