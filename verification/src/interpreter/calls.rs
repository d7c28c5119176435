//! The value of a call and of a pipe.

use crate::errors;
use crate::grammar::{
    elements_view, Call, Definition, Element, ElementView, Expression, Function, FunctionCall, List,
    Pipe, Signature,
};
use crate::interpreter::environment::{lookup, scope_view, Binding, BindingView, Environment};
use crate::interpreter::fractions::Fractions;
use crate::interpreter::meaning::{
    argument_values_from, bindings, call_value, named_value, pipe_results_from, pipe_value,
    pipe_values_from, piped_value, to_function, HaltView,
};
use crate::interpreter::{agrees, arguments, expressions, failure, functions, operations, Halt};
use crate::tokens::{views, Identifier, LocatedIdentifier, Value, ValueView};
use vstd::prelude::*;
use vstd::string::*;

verus! {

/// The values of a sequence of values.
pub open spec fn values_view(values: Seq<Value>) -> Seq<ValueView> {
    Seq::new(values.len(), |i: int| values[i]@)
}

/// Evaluates a call in `env`: the arguments first, as far as the callee has
/// parameters for them, then the callee's body in a scope of its own.
pub fn eval(env: &Environment, fc: &FunctionCall, fractions: &Fractions, depth: usize) -> (result:
    Result<Option<Value>, Halt>)
    ensures
        agrees(
            result,
            call_value(
                fractions@,
                env@,
                fc.name@,
                crate::grammar::arguments_view(fc.arguments),
                fc.line,
                depth as nat,
            ),
        ),
    decreases depth, 4nat, fc, 0nat,
{
    let function = match env.get(&fc.name.id) {
        Some(function) => function,
        None => {
            return Err(Halt::Failed(errors::undefined_variable(&fc.name.id, fc.line)));
        },
    };
    let params = &function.definition.parameters;
    let ghost wanted = crate::grammar::arguments_view(fc.arguments);

    let mut values: Vec<Value> = Vec::new();
    assert(values_view(values@) =~= Seq::<ValueView>::empty());
    let mut i: usize = 0;
    while i < params.len() && i < fc.arguments.len()
        invariant
            i <= fc.arguments.len(),
            wanted == crate::grammar::arguments_view(fc.arguments),
            lookup(env@, fc.name@.id) == Some(function@),
            views(params@) == function@.definition.parameters,
            argument_values_from(
                fractions@,
                env@,
                wanted,
                params.len() as nat,
                0,
                depth as nat,
                Seq::empty(),
            ) == argument_values_from(
                fractions@,
                env@,
                wanted,
                params.len() as nat,
                i as nat,
                depth as nat,
                values_view(values@),
            ),
        decreases fc.arguments.len() - i,
    {
        let ghost before = values_view(values@);
        let value = arguments::eval(env, &fc.arguments[i], fractions, depth)?;
        values.push(value);
        assert(values_view(values@) =~= before.push(value@));
        i += 1;
    }
    let scope = bind(params, &values);
    let env = Environment::with_enclosing(scope, env);

    let result = functions::eval(&env, function, fractions, depth)?;
    Ok(result)
}

/// The scope of a call: each parameter bound to the value at the same place.
fn bind(params: &Vec<LocatedIdentifier>, values: &Vec<Value>) -> (scope: Vec<Binding>)
    ensures
        scope_view(scope@) == bindings(views(params@), values_view(values@)),
{
    let mut scope: Vec<Binding> = Vec::new();
    let mut i: usize = 0;
    while i < params.len() && i < values.len()
        invariant
            i <= params.len(),
            i <= values.len(),
            scope.len() == i,
            forall|k: int|
                0 <= k < i ==> (#[trigger] scope[k])@ == (BindingView {
                    name: params[k].id@,
                    function: to_function(values[k]@),
                }),
        decreases params.len() - i,
    {
        scope.push(Binding { name: params[i].id.clone(), function: to_fn(values[i].copy()) });
        i += 1;
    }
    assert(scope_view(scope@) =~= bindings(views(params@), values_view(values@)));
    scope
}

/// What the function named `name` makes of `values`.
fn eval_with(
    env: &Environment,
    name: &Identifier,
    line: usize,
    values: &Vec<Value>,
    fractions: &Fractions,
    depth: usize,
) -> (result: Result<Option<Value>, Halt>)
    ensures
        agrees(
            result,
            named_value(fractions@, env@, name@, line, values_view(values@), depth as nat),
        ),
    decreases depth, 1nat,
{
    let function = match env.get(name) {
        Some(function) => function,
        None => {
            return Err(Halt::Failed(errors::undefined_variable(name, line)));
        },
    };
    let scope = bind(&function.definition.parameters, values);
    let env = Environment::with_enclosing(scope, env);
    functions::eval(&env, function, fractions, depth)
}

fn single(value: Value) -> (values: Vec<Value>)
    ensures
        values_view(values@) == seq![value@],
{
    let mut values: Vec<Value> = Vec::new();
    values.push(value);
    assert(values_view(values@) =~= seq![value@]);
    values
}

/// Evaluates a pipe in `env`: the left side first, then the function named on
/// the right, once for a single value and once for each element of a list.
pub fn eval_pipe(env: &Environment, pipe: &Pipe, fractions: &Fractions, depth: usize) -> (result:
    Result<Option<Value>, Halt>)
    ensures
        agrees(result, pipe_value(fractions@, env@, pipe.left@, pipe.right@, pipe.line, depth as nat)),
    decreases depth, 4nat, pipe, 0nat,
{
    let arg = match &*pipe.left {
        Expression::Value(v) => v.copy(),
        Expression::Call(call) => {
            let result = match call {
                Call::Operation(op) => operations::eval(env, op, fractions, depth),
                Call::FunctionCall(fc) => eval(env, fc, fractions, depth),
                Call::Pipe(p) => eval_pipe(env, p, fractions, depth),
            };
            match result? {
                Some(value) => value,
                None => {
                    return Err(
                        failure("Expected expression on left side of pipe, found none", pipe.line),
                    );
                },
            }
        },
        Expression::Conditional(_) => {
            match expressions::eval(env, &pipe.left, fractions, depth)? {
                Some(value) => value,
                None => {
                    return Err(
                        failure("Expected expression on left side of pipe, found none", pipe.line),
                    );
                },
            }
        },
    };
    pipe_into(env, arg, &pipe.right, pipe.line, fractions, depth)
}

/// What `arg` piped into the function named `right` gives.
fn pipe_into(
    env: &Environment,
    arg: Value,
    right: &Identifier,
    line: usize,
    fractions: &Fractions,
    depth: usize,
) -> (result: Result<Option<Value>, Halt>)
    ensures
        agrees(result, piped_value(fractions@, env@, arg@, right@, line, depth as nat)),
    decreases depth, 3nat, arg, 0nat,
{
    if let Value::List(ref list) = arg {
        let ghost elements = list@.elements;
        let mut resolved: Vec<Value> = Vec::new();
        assert(values_view(resolved@) =~= Seq::<ValueView>::empty());
        let mut i: usize = 0;
        while i < list.elements.len()
            invariant
                i <= list.elements.len(),
                elements == list@.elements,
                arg@ == ValueView::List(list@),
                pipe_values_from(fractions@, env@, elements, 0, line, depth as nat, Seq::empty())
                    == pipe_values_from(
                    fractions@,
                    env@,
                    elements,
                    i as nat,
                    line,
                    depth as nat,
                    values_view(resolved@),
                ),
            decreases list.elements.len() - i,
        {
            let ghost before = values_view(resolved@);
            assert(elements[i as int] == list.elements[i as int]@);
            let v = match &list.elements[i] {
                Element::Value(v) => v.copy(),
                Element::Identifier(id) => {
                    let missing = Halt::Failed(errors::undefined_variable(id, line));
                    match functions::eval_alone(env, id, missing, fractions, depth)? {
                        Some(value) => value,
                        None => {
                            return Err(Halt::Failed(errors::undefined_argument(id, line)));
                        },
                    }
                },
            };
            resolved.push(v);
            assert(values_view(resolved@) =~= before.push(v@));
            i += 1;
        }

        let mut results: Vec<Element> = Vec::new();
        assert(elements_view(results) =~= Seq::<ElementView>::empty());
        let mut k: usize = 0;
        while k < resolved.len()
            invariant
                k <= resolved.len(),
                arg@ == ValueView::List(list@),
                pipe_values_from(fractions@, env@, list@.elements, 0, line, depth as nat, Seq::empty())
                    == Ok::<Seq<ValueView>, HaltView>(values_view(resolved@)),
                pipe_results_from(
                    fractions@,
                    env@,
                    right@,
                    line,
                    values_view(resolved@),
                    0,
                    depth as nat,
                    Seq::empty(),
                ) == pipe_results_from(
                    fractions@,
                    env@,
                    right@,
                    line,
                    values_view(resolved@),
                    k as nat,
                    depth as nat,
                    elements_view(results),
                ),
            decreases resolved.len() - k,
        {
            let ghost before = elements_view(results);
            let arguments = single(resolved[k].copy());
            let value = match eval_with(env, right, line, &arguments, fractions, depth)? {
                Some(value) => value,
                None => unreached(),
            };
            let element = Element::Value(value);
            results.push(element);
            assert(elements_view(results) =~= before.push(element@));
            k += 1;
        }

        return Ok(Some(Value::List(List { list_type: arg.get_type(), elements: results, line })));
    }
    let arguments = single(arg);
    eval_with(env, right, line, &arguments, fractions, depth)
}

/// The function that stands for a value: it takes nothing and its body is the
/// value.
pub fn to_fn(value: Value) -> (function: Function)
    ensures
        function@ == to_function(value@),
{
    let function = Function {
        signature: Signature { parameters: Vec::new(), returns: value.get_type() },
        definition: Definition {
            name: LocatedIdentifier { id: value.to_string(), line: 0 },
            parameters: Vec::new(),
            body: Expression::Value(value),
        },
    };
    assert(function@.signature.parameters =~= Seq::<crate::tokens::Type>::empty());
    assert(function@.definition.parameters =~= Seq::<crate::tokens::NameView>::empty());
    function
}

} // verus!
