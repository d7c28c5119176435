//! The value of an argument.

use crate::errors;
use crate::grammar::Argument;
use crate::interpreter::environment::Environment;
use crate::interpreter::fractions::Fractions;
use crate::interpreter::meaning::argument_value;
use crate::interpreter::{expressions, failure, functions, gives, Halt};
use crate::tokens::Value;
use vstd::prelude::*;

verus! {

/// Evaluates an argument in `env`.
pub fn eval(env: &Environment, arg: &Argument, fractions: &Fractions, depth: usize) -> (result:
    Result<Value, Halt>)
    ensures
        gives(result, argument_value(fractions@, env@, arg@, depth as nat)),
    decreases depth, 4nat, arg, 0nat,
{
    match arg {
        Argument::Value(v) => Ok(v.copy()),
        Argument::Identifier(l_id) => {
            let missing = Halt::Failed(errors::undefined_argument(&l_id.id, l_id.line));
            match functions::eval_alone(env, &l_id.id, missing, fractions, depth)? {
                Some(value) => Ok(value),
                None => Err(Halt::Failed(errors::undefined_argument(&l_id.id, l_id.line))),
            }
        },
        Argument::ParenExpression(expr) => {
            let result = expressions::eval(env, expr, fractions, depth)?;
            if let Some(v) = result {
                Ok(v)
            } else {
                Err(failure("parenthesized expression did not evaluate to a value", 0))
            }
        },
    }
}

} // verus!
