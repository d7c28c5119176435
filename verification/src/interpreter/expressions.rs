//! The value of an expression.

use crate::errors;
use crate::grammar::{Call, Conditional, Expression};
use crate::interpreter::environment::Environment;
use crate::interpreter::fractions::Fractions;
use crate::interpreter::meaning::expression_value;
use crate::interpreter::{agrees, calls, data, operations, Halt};
use crate::tokens::{Type, Value};
use vstd::prelude::*;

verus! {

/// Evaluates an expression in `env`.
pub fn eval(env: &Environment, expr: &Expression, fractions: &Fractions, depth: usize) -> (result:
    Result<Option<Value>, Halt>)
    ensures
        agrees(result, expression_value(fractions@, env@, expr@, depth as nat)),
    decreases depth, 4nat, expr, 0nat,
{
    match expr {
        Expression::Value(v) => {
            if let Value::List(l) = v {
                data::eval_list(env, l, fractions, depth)
            } else {
                Ok(Some(v.copy()))
            }
        },
        Expression::Call(c) => match c {
            Call::Operation(op) => operations::eval(env, op, fractions, depth),
            Call::FunctionCall(fc) => calls::eval(env, fc, fractions, depth),
            Call::Pipe(p) => calls::eval_pipe(env, p, fractions, depth),
        },
        Expression::Conditional(c) => eval_conditional(env, c, fractions, depth),
    }
}

fn eval_conditional(env: &Environment, cdl: &Conditional, fractions: &Fractions, depth: usize) -> (result:
    Result<Option<Value>, Halt>)
    ensures
        agrees(result, expression_value(fractions@, env@, cdl@, depth as nat)),
    decreases depth, 4nat, cdl, 0nat,
{
    let Conditional { condition, then, otherwise, line } = cdl;
    match eval(env, condition, fractions, depth)? {
        Some(Value::Boolean(b)) => {
            if b {
                eval(env, then, fractions, depth)
            } else {
                eval(env, otherwise, fractions, depth)
            }
        },
        Some(v) => Err(Halt::Failed(errors::unexpected_type(&Type::Bool, &v.get_type(), *line))),
        None => Ok(None),
    }
}

} // verus!
