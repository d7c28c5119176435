//! The value of a list literal.

use crate::errors::{undefined_argument, undefined_variable, CompilerError};
use crate::grammar::{elements_view, Element, ElementView, List};
use crate::interpreter::environment::Environment;
use crate::interpreter::fractions::Fractions;
use crate::interpreter::meaning::{list_mismatch_message, list_value_from};
use crate::interpreter::{agrees, functions, Halt};
use crate::tokens::{Type, Value};
use vstd::prelude::*;
use vstd::string::*;

verus! {

fn mismatch(expected: &Type, observed: &Type, line: usize) -> (halt: Halt)
    ensures
        halt@ == crate::interpreter::meaning::failed(
            list_mismatch_message(*expected, *observed),
            line,
        ),
{
    let mut message = String::from_str("list type mismatch: expected ");
    expected.write(&mut message);
    message.append(", found ");
    observed.write(&mut message);
    Halt::Failed(CompilerError::Interpreter(message, line))
}

/// Evaluates a list literal in `env`: every element is resolved to a value
/// and held against the declared element type.
pub fn eval_list(env: &Environment, l: &List, fractions: &Fractions, depth: usize) -> (result:
    Result<Option<Value>, Halt>)
    ensures
        agrees(
            result,
            list_value_from(fractions@, env@, l@, 0, depth as nat, Seq::empty()),
        ),
    decreases depth, 2nat, l, 0nat,
{
    let list_type = l.list_type.copy();
    let mut resolved: Vec<Element> = Vec::new();
    assert(elements_view(resolved) =~= Seq::<ElementView>::empty());
    let mut i: usize = 0;
    while i < l.elements.len()
        invariant
            i <= l.elements.len(),
            list_type == l.list_type,
            list_value_from(fractions@, env@, l@, 0, depth as nat, Seq::empty()) == list_value_from(
                fractions@,
                env@,
                l@,
                i as nat,
                depth as nat,
                elements_view(resolved),
            ),
        decreases l.elements.len() - i,
    {
        let ghost before = elements_view(resolved);
        assert(l@.elements[i as int] == l.elements[i as int]@);
        let value = match &l.elements[i] {
            Element::Value(v) => v.copy(),
            Element::Identifier(id) => {
                let missing = Halt::Failed(undefined_variable(id, l.line));
                match functions::eval_alone(env, id, missing, fractions, depth)? {
                    Some(value) => value,
                    None => {
                        return Err(Halt::Failed(undefined_argument(id, l.line)));
                    },
                }
            },
        };
        let observed = value.get_type();
        if !observed.same(&list_type) {
            return Err(mismatch(&list_type, &observed, l.line));
        }
        let element = Element::Value(value);
        resolved.push(element);
        assert(elements_view(resolved) =~= before.push(element@));
        i += 1;
    }
    let list = List { list_type, elements: resolved, line: l.line };
    Ok(Some(Value::List(list)))
}

} // verus!
