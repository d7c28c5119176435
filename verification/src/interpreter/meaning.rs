//! What programs mean: the value of each construct as a function of the
//! construct, the environment, the known facts on fractional numbers and the
//! depth to which functions may still be entered.
//!
//! The executable interpreter is proved to compute exactly these functions.

use crate::errors::{
    undefined_argument_message, undefined_variable_message, unexpected_type_message,
    wrong_operator_arity_message, ErrorView,
};
use crate::grammar::{
    ArgumentView, DefinitionView, ElementView, ExpressionView, FunctionView, ListView,
    SignatureView,
};
use crate::interpreter::environment::{inside, lookup, outermost, BindingView, EnvironmentView};
use crate::interpreter::fractions::{number_of, truth_of, FactView, QueryView};
use crate::text::nat_text;
use crate::tokens::{
    class_of, type_of, type_text, value_text, NameView, Operator, OperatorType, Type, ValueView,
};
use vstd::prelude::*;

verus! {

/// Why an evaluation stopped without a value: an error, or a question on
/// fractional numbers that the known facts do not answer.
pub enum HaltView {
    Failed(ErrorView),
    Needs(QueryView),
}

/// What an evaluation ends in: a value, or the reason why there is none.
pub type Evaluated = Result<ValueView, HaltView>;

/// An interpreter error.
pub open spec fn failed(message: Seq<char>, line: usize) -> HaltView {
    HaltView::Failed(ErrorView::Interpreter(message, line))
}

/// The message that a signature and a definition disagree on the number of
/// parameters.
pub open spec fn arity_mismatch_message(declared: nat, defined: nat) -> Seq<char> {
    "function signature and definition arity mismatch: expected "@ + nat_text(declared)
        + " parameters, found "@ + nat_text(defined)
}

/// The message that a list holds a value of another type than it declares.
pub open spec fn list_mismatch_message(expected: Type, observed: Type) -> Seq<char> {
    "list type mismatch: expected "@ + type_text(expected) + ", found "@ + type_text(observed)
}

/// The message that a name is defined twice.
pub open spec fn already_defined_message(id: Seq<char>) -> Seq<char> {
    "variable `"@ + id + "` already defined"@
}

/// The function that stands for a value: it takes nothing and its body is the
/// value.
pub open spec fn to_function(value: ValueView) -> FunctionView {
    FunctionView {
        signature: SignatureView { parameters: Seq::empty(), returns: type_of(value) },
        definition: DefinitionView {
            name: NameView { id: value_text(value), line: 0 },
            parameters: Seq::empty(),
            body: ExpressionView::Value(value),
        },
    }
}

/// How many of `values` a call binds: as many as there are parameters for.
pub open spec fn bound_count(parameters: Seq<NameView>, values: nat) -> nat {
    if values <= parameters.len() {
        values
    } else {
        parameters.len()
    }
}

/// The scope of a call: each parameter, in the order in which the definition
/// holds them, bound to the value at the same place.
pub open spec fn bindings(parameters: Seq<NameView>, values: Seq<ValueView>) -> Seq<BindingView> {
    Seq::new(
        bound_count(parameters, values.len()),
        |i: int| BindingView { name: parameters[i].id, function: to_function(values[i]) },
    )
}

/// Whether a 64-bit signed integer can hold `n`.
pub open spec fn fits(n: int) -> bool {
    i64::MIN <= n <= i64::MAX
}

/// Division that rounds toward zero: the quotient of the magnitudes, with the
/// sign of the operands' product.
pub open spec fn quotient(a: int, b: int) -> int {
    if a == 0 {
        0
    } else if a > 0 && b > 0 {
        a / b
    } else if a < 0 && b < 0 {
        (-a) / (-b)
    } else if a < 0 {
        -((-a) / b)
    } else {
        -(a / (-b))
    }
}

/// One step of a fold.
pub open spec fn combine(operator: Operator, acc: int, x: int) -> int {
    match operator {
        Operator::Add => acc + x,
        Operator::Sub => acc - x,
        Operator::Mul => acc * x,
        _ => quotient(acc, x),
    }
}

/// `acc` combined with the numbers from place `i` on, one after the other;
/// nothing where a step leaves the range of 64-bit signed integers.
pub open spec fn fold_from(operator: Operator, acc: int, args: Seq<i64>, i: nat) -> Option<int>
    decreases args.len() - i,
{
    if i >= args.len() {
        Some(acc)
    } else {
        let next = combine(operator, acc, args[i as int] as int);
        if fits(next) {
            fold_from(operator, next, args, i + 1)
        } else {
            None
        }
    }
}

/// Whether a zero stands among the numbers from place `i` on.
pub open spec fn has_zero_from(args: Seq<i64>, i: nat) -> bool {
    exists|k: int| i <= k < args.len() && args[k] == 0
}

/// What an arithmetic operator makes of integers: `+` their sum from 0, `*`
/// their product from 1, `-` the first less each of the others, `/` the first
/// divided by each of the others in turn.
pub open spec fn arithmetic(operator: Operator, args: Seq<i64>) -> Result<i64, Seq<char>> {
    if operator == Operator::Div && has_zero_from(args, 1) {
        Err("division by zero"@)
    } else {
        match folded(operator, args) {
            Some(n) => Ok(n as i64),
            None => Err("integer overflow"@),
        }
    }
}

/// The fold of an arithmetic operator over integers; nothing where a step
/// leaves the range of 64-bit signed integers.
pub open spec fn folded(operator: Operator, args: Seq<i64>) -> Option<int> {
    match operator {
        Operator::Add => fold_from(operator, 0, args, 0),
        Operator::Mul => fold_from(operator, 1, args, 0),
        _ => fold_from(operator, args[0] as int, args, 1),
    }
}

/// What a comparison makes of two integers.
pub open spec fn compare(operator: Operator, a: int, b: int) -> bool {
    match operator {
        Operator::Lt => a < b,
        Operator::Lte => a <= b,
        Operator::Gt => a > b,
        Operator::Gte => a >= b,
        Operator::Eq => a == b,
        _ => a != b,
    }
}

/// What a logical operator makes of two truth values.
pub open spec fn bool_op(operator: Operator, first: bool, second: bool) -> bool {
    match operator {
        Operator::Eq => first == second,
        Operator::Neq => first != second,
        Operator::And => first && second,
        _ => first || second,
    }
}

/// The zero that a divisor is held against.
pub open spec fn zero_text() -> Seq<char> {
    "0"@
}

/// Whether a zero stands among the fractional numbers from place `i` on, as
/// far as the facts tell.
pub open spec fn zero_among(facts: Seq<FactView>, args: Seq<Seq<char>>, i: nat) -> Result<
    bool,
    HaltView,
>
    decreases args.len() - i,
{
    if i >= args.len() {
        Ok(false)
    } else {
        let query = QueryView::Apply(Operator::Eq, args[i as int], zero_text());
        match truth_of(facts, query) {
            None => Err(HaltView::Needs(query)),
            Some(true) => Ok(true),
            Some(false) => zero_among(facts, args, i + 1),
        }
    }
}

/// `acc` combined with the fractional numbers from place `i` on, one after
/// the other, each step as the facts give it.
pub open spec fn fraction_fold_from(
    facts: Seq<FactView>,
    operator: Operator,
    acc: Seq<char>,
    args: Seq<Seq<char>>,
    i: nat,
) -> Result<Seq<char>, HaltView>
    decreases args.len() - i,
{
    if i >= args.len() {
        Ok(acc)
    } else {
        let query = QueryView::Apply(operator, acc, args[i as int]);
        match number_of(facts, query) {
            None => Err(HaltView::Needs(query)),
            Some(next) => fraction_fold_from(facts, operator, next, args, i + 1),
        }
    }
}

/// What an arithmetic operator makes of fractional numbers: the same folds as
/// over integers, from `0` for `+` and from `1` for `*`.
pub open spec fn fraction_arithmetic(
    facts: Seq<FactView>,
    operator: Operator,
    args: Seq<Seq<char>>,
    line: usize,
) -> Result<Seq<char>, HaltView> {
    if operator == Operator::Div {
        match zero_among(facts, args, 1) {
            Err(halt) => Err(halt),
            Ok(true) => Err(failed("division by zero"@, line)),
            Ok(false) => fraction_folded(facts, operator, args),
        }
    } else {
        fraction_folded(facts, operator, args)
    }
}

/// The fold of an arithmetic operator over fractional numbers.
pub open spec fn fraction_folded(
    facts: Seq<FactView>,
    operator: Operator,
    args: Seq<Seq<char>>,
) -> Result<Seq<char>, HaltView> {
    match operator {
        Operator::Add => fraction_fold_from(facts, operator, "0"@, args, 0),
        Operator::Mul => fraction_fold_from(facts, operator, "1"@, args, 0),
        _ => fraction_fold_from(facts, operator, args[0], args, 1),
    }
}

/// What a comparison makes of two fractional numbers, as the facts give it.
pub open spec fn fraction_compare(
    facts: Seq<FactView>,
    operator: Operator,
    a: Seq<char>,
    b: Seq<char>,
) -> Evaluated {
    let query = QueryView::Apply(operator, a, b);
    match truth_of(facts, query) {
        None => Err(HaltView::Needs(query)),
        Some(holds) => Ok(ValueView::Boolean(holds)),
    }
}

/// What `not` makes of a value.
pub open spec fn negation(value: ValueView, line: usize) -> Evaluated {
    match value {
        ValueView::Boolean(b) => Ok(ValueView::Boolean(!b)),
        _ => Err(failed(unexpected_type_message(type_text(Type::Bool), type_of(value)), line)),
    }
}

/// What `+` and `-` make of a single value: `+` leaves a number as it is, `-`
/// turns its sign.
pub open spec fn signed(
    facts: Seq<FactView>,
    operator: Operator,
    value: ValueView,
    line: usize,
) -> Evaluated {
    match value {
        ValueView::Integer(i) => if operator == Operator::Sub {
            if i == i64::MIN {
                Err(failed("integer overflow"@, line))
            } else {
                Ok(ValueView::Integer((-i) as i64))
            }
        } else {
            Ok(value)
        },
        ValueView::Fractional(t) => if operator == Operator::Sub {
            match number_of(facts, QueryView::Negate(t)) {
                None => Err(HaltView::Needs(QueryView::Negate(t))),
                Some(n) => Ok(ValueView::Fractional(n)),
            }
        } else {
            Ok(value)
        },
        _ => Err(failed(unexpected_type_message("Numeric"@, type_of(value)), line)),
    }
}

/// What a comparison of order makes of two values: both integers or both
/// fractional numbers.
pub open spec fn relation(
    facts: Seq<FactView>,
    operator: Operator,
    first: ValueView,
    second: ValueView,
    line: usize,
) -> Evaluated {
    match (first, second) {
        (ValueView::Integer(i), ValueView::Integer(j)) => Ok(
            ValueView::Boolean(compare(operator, i as int, j as int)),
        ),
        (ValueView::Fractional(f), ValueView::Fractional(g)) => fraction_compare(
            facts,
            operator,
            f,
            g,
        ),
        _ => Err(failed(unexpected_type_message(type_text(type_of(first)), type_of(second)), line)),
    }
}

/// What a logical operator makes of two values. With a truth value first, the
/// second must be one too. Else `==` and `!=` hold two integers or two
/// fractional numbers against each other, and nothing else is of one type.
pub open spec fn logic(
    facts: Seq<FactView>,
    operator: Operator,
    first: ValueView,
    second: ValueView,
    line: usize,
) -> Evaluated {
    let equality = operator == Operator::Eq || operator == Operator::Neq;
    match (first, second) {
        (ValueView::Boolean(a), ValueView::Boolean(b)) => Ok(
            ValueView::Boolean(bool_op(operator, a, b)),
        ),
        (ValueView::Boolean(_), _) => Err(
            failed(unexpected_type_message(type_text(Type::Bool), type_of(second)), line),
        ),
        (ValueView::Integer(i), ValueView::Integer(j)) => if equality {
            Ok(ValueView::Boolean(compare(operator, i as int, j as int)))
        } else {
            Err(failed("type mismatch"@, line))
        },
        (ValueView::Fractional(f), ValueView::Fractional(g)) => if equality {
            fraction_compare(facts, operator, f, g)
        } else {
            Err(failed("type mismatch"@, line))
        },
        _ => Err(failed("type mismatch"@, line)),
    }
}

/// What a function evaluates to in `env`: its body, provided that its
/// signature declares as many parameters as its definition names, and that
/// functions may still be entered.
pub open spec fn function_value(
    facts: Seq<FactView>,
    env: EnvironmentView,
    function: FunctionView,
    depth: nat,
) -> Evaluated
    decreases depth, 0nat,
{
    let declared = function.signature.parameters.len();
    let defined = function.definition.parameters.len();
    if declared != defined {
        Err(failed(arity_mismatch_message(declared, defined), function.definition.name.line))
    } else if depth == 0 {
        Err(failed("recursion limit exceeded"@, function.definition.name.line))
    } else {
        expression_value(facts, env, function.definition.body, (depth - 1) as nat)
    }
}

/// What the function named `name` makes of `values`: its body in a scope of
/// its own, inside `env`, that binds its parameters to them.
pub open spec fn named_value(
    facts: Seq<FactView>,
    env: EnvironmentView,
    name: Seq<char>,
    line: usize,
    values: Seq<ValueView>,
    depth: nat,
) -> Evaluated
    decreases depth, 1nat,
{
    match lookup(env, name) {
        None => Err(failed(undefined_variable_message(name), line)),
        Some(function) => function_value(
            facts,
            inside(env, bindings(function.definition.parameters, values)),
            function,
            depth,
        ),
    }
}

/// What a name that stands alone evaluates to: the function it means in
/// `env`, evaluated there.
pub open spec fn name_value(
    facts: Seq<FactView>,
    env: EnvironmentView,
    name: Seq<char>,
    missing: HaltView,
    depth: nat,
) -> Evaluated
    decreases depth, 1nat,
{
    match lookup(env, name) {
        None => Err(missing),
        Some(function) => function_value(facts, env, function, depth),
    }
}

/// What an expression evaluates to. A list is resolved and checked; any other
/// value is itself. Of a conditional only the branch that the condition picks
/// is evaluated.
pub open spec fn expression_value(
    facts: Seq<FactView>,
    env: EnvironmentView,
    expression: ExpressionView,
    depth: nat,
) -> Evaluated
    decreases depth, 4nat, expression, 0nat,
{
    match expression {
        ExpressionView::Value(ValueView::List(list)) => list_value_from(
            facts,
            env,
            list,
            0,
            depth,
            Seq::empty(),
        ),
        ExpressionView::Value(value) => Ok(value),
        ExpressionView::Operation { operator, arguments, line } => operation_value(
            facts,
            env,
            operator,
            arguments,
            line,
            depth,
        ),
        ExpressionView::FunctionCall { name, arguments, line } => call_value(
            facts,
            env,
            name,
            arguments,
            line,
            depth,
        ),
        ExpressionView::Pipe { left, right, line } => pipe_value(
            facts,
            env,
            *left,
            right,
            line,
            depth,
        ),
        ExpressionView::Conditional { condition, then, otherwise, line } => match expression_value(
            facts,
            env,
            *condition,
            depth,
        ) {
            Err(halt) => Err(halt),
            Ok(ValueView::Boolean(holds)) => if holds {
                expression_value(facts, env, *then, depth)
            } else {
                expression_value(facts, env, *otherwise, depth)
            },
            Ok(value) => Err(
                failed(unexpected_type_message(type_text(Type::Bool), type_of(value)), line),
            ),
        },
    }
}

/// The list that a list literal evaluates to, from its element at `i` on,
/// after the elements in `found`: each element resolved to a value of the
/// declared type.
pub open spec fn list_value_from(
    facts: Seq<FactView>,
    env: EnvironmentView,
    list: ListView,
    i: nat,
    depth: nat,
    found: Seq<ElementView>,
) -> Evaluated
    decreases depth, 2nat, list.elements, list.elements.len() - i,
{
    if i >= list.elements.len() {
        Ok(ValueView::List(ListView { list_type: list.list_type, elements: found, line: list.line }))
    } else {
        let resolved: Evaluated = match list.elements[i as int] {
            ElementView::Value(value) => Ok(value),
            ElementView::Identifier(id) => name_value(
                facts,
                env,
                id,
                failed(undefined_variable_message(id), list.line),
                depth,
            ),
        };
        match resolved {
            Err(halt) => Err(halt),
            Ok(value) => if type_of(value) != list.list_type {
                Err(failed(list_mismatch_message(list.list_type, type_of(value)), list.line))
            } else {
                list_value_from(facts, env, list, i + 1, depth, found.push(ElementView::Value(value)))
            },
        }
    }
}

/// What an argument evaluates to: a value is itself and is not looked into, a
/// name is what it stands for, an expression in parentheses is evaluated.
pub open spec fn argument_value(
    facts: Seq<FactView>,
    env: EnvironmentView,
    argument: ArgumentView,
    depth: nat,
) -> Evaluated
    decreases depth, 4nat, argument, 0nat,
{
    match argument {
        ArgumentView::Value(value) => Ok(value),
        ArgumentView::Identifier(name) => name_value(
            facts,
            env,
            name.id,
            failed(undefined_argument_message(name.id), name.line),
            depth,
        ),
        ArgumentView::ParenExpression(expression) => expression_value(facts, env, expression, depth),
    }
}

/// The values of the arguments from place `i` up to place `count`, after
/// those in `found`.
pub open spec fn argument_values_from(
    facts: Seq<FactView>,
    env: EnvironmentView,
    arguments: Seq<ArgumentView>,
    count: nat,
    i: nat,
    depth: nat,
    found: Seq<ValueView>,
) -> Result<Seq<ValueView>, HaltView>
    decreases depth, 4nat, arguments, arguments.len() - i,
{
    if i >= count || i >= arguments.len() {
        Ok(found)
    } else {
        match argument_value(facts, env, arguments[i as int], depth) {
            Err(halt) => Err(halt),
            Ok(value) => argument_values_from(
                facts,
                env,
                arguments,
                count,
                i + 1,
                depth,
                found.push(value),
            ),
        }
    }
}

/// The integers that the arguments from place `i` on evaluate to, after those
/// in `found`. An argument is checked before the next one is evaluated.
pub open spec fn integers_from(
    facts: Seq<FactView>,
    env: EnvironmentView,
    arguments: Seq<ArgumentView>,
    i: nat,
    line: usize,
    depth: nat,
    found: Seq<i64>,
) -> Result<Seq<i64>, HaltView>
    decreases depth, 4nat, arguments, arguments.len() - i,
{
    if i >= arguments.len() {
        Ok(found)
    } else {
        match argument_value(facts, env, arguments[i as int], depth) {
            Err(halt) => Err(halt),
            Ok(ValueView::Integer(n)) => integers_from(
                facts,
                env,
                arguments,
                i + 1,
                line,
                depth,
                found.push(n),
            ),
            Ok(value) => Err(
                failed(unexpected_type_message(type_text(Type::Int), type_of(value)), line),
            ),
        }
    }
}

/// The fractional numbers that the arguments from place `i` on evaluate to,
/// after those in `found`.
pub open spec fn fractions_from(
    facts: Seq<FactView>,
    env: EnvironmentView,
    arguments: Seq<ArgumentView>,
    i: nat,
    line: usize,
    depth: nat,
    found: Seq<Seq<char>>,
) -> Result<Seq<Seq<char>>, HaltView>
    decreases depth, 4nat, arguments, arguments.len() - i,
{
    if i >= arguments.len() {
        Ok(found)
    } else {
        match argument_value(facts, env, arguments[i as int], depth) {
            Err(halt) => Err(halt),
            Ok(ValueView::Fractional(t)) => fractions_from(
                facts,
                env,
                arguments,
                i + 1,
                line,
                depth,
                found.push(t),
            ),
            Ok(value) => Err(
                failed(unexpected_type_message(type_text(Type::Frac), type_of(value)), line),
            ),
        }
    }
}

/// What a call evaluates to: the callee's body in a scope that binds its
/// parameters to the values of the arguments. Arguments beyond the last
/// parameter are not evaluated.
pub open spec fn call_value(
    facts: Seq<FactView>,
    env: EnvironmentView,
    name: NameView,
    arguments: Seq<ArgumentView>,
    line: usize,
    depth: nat,
) -> Evaluated
    decreases depth, 4nat, arguments, arguments.len() + 1,
{
    match lookup(env, name.id) {
        None => Err(failed(undefined_variable_message(name.id), line)),
        Some(function) => match argument_values_from(
            facts,
            env,
            arguments,
            function.definition.parameters.len(),
            0,
            depth,
            Seq::empty(),
        ) {
            Err(halt) => Err(halt),
            Ok(values) => function_value(
                facts,
                inside(env, bindings(function.definition.parameters, values)),
                function,
                depth,
            ),
        },
    }
}

/// What an operation evaluates to, by the class of its operator.
pub open spec fn operation_value(
    facts: Seq<FactView>,
    env: EnvironmentView,
    operator: Operator,
    arguments: Seq<ArgumentView>,
    line: usize,
    depth: nat,
) -> Evaluated
    decreases depth, 4nat, arguments, arguments.len() + 1,
{
    let wrong_arity: Evaluated = Err(failed(wrong_operator_arity_message(operator), line));
    match class_of(operator) {
        OperatorType::Unary => if arguments.len() != 1 {
            wrong_arity
        } else {
            match argument_value(facts, env, arguments[0], depth) {
                Err(halt) => Err(halt),
                Ok(value) => negation(value, line),
            }
        },
        OperatorType::Binary => if arguments.len() == 1 {
            if operator == Operator::Add || operator == Operator::Sub {
                match argument_value(facts, env, arguments[0], depth) {
                    Err(halt) => Err(halt),
                    Ok(value) => signed(facts, operator, value, line),
                }
            } else {
                wrong_arity
            }
        } else if arguments.len() < 2 {
            wrong_arity
        } else {
            match argument_value(facts, env, arguments[0], depth) {
                Err(halt) => Err(halt),
                Ok(ValueView::Integer(first)) => match integers_from(
                    facts,
                    env,
                    arguments,
                    1,
                    line,
                    depth,
                    seq![first],
                ) {
                    Err(halt) => Err(halt),
                    Ok(integers) => match arithmetic(operator, integers) {
                        Ok(n) => Ok(ValueView::Integer(n)),
                        Err(message) => Err(failed(message, line)),
                    },
                },
                Ok(ValueView::Fractional(first)) => match fractions_from(
                    facts,
                    env,
                    arguments,
                    1,
                    line,
                    depth,
                    seq![first],
                ) {
                    Err(halt) => Err(halt),
                    Ok(fractions) => match fraction_arithmetic(facts, operator, fractions, line) {
                        Ok(t) => Ok(ValueView::Fractional(t)),
                        Err(halt) => Err(halt),
                    },
                },
                Ok(value) => Err(
                    failed(unexpected_type_message("Numeric"@, type_of(value)), line),
                ),
            }
        },
        OperatorType::Relational => if arguments.len() != 2 {
            wrong_arity
        } else {
            match argument_value(facts, env, arguments[0], depth) {
                Err(halt) => Err(halt),
                Ok(first) => match argument_value(facts, env, arguments[1], depth) {
                    Err(halt) => Err(halt),
                    Ok(second) => relation(facts, operator, first, second, line),
                },
            }
        },
        OperatorType::Logical => if arguments.len() != 2 {
            wrong_arity
        } else {
            match argument_value(facts, env, arguments[0], depth) {
                Err(halt) => Err(halt),
                Ok(first) => match argument_value(facts, env, arguments[1], depth) {
                    Err(halt) => Err(halt),
                    Ok(second) => logic(facts, operator, first, second, line),
                },
            }
        },
    }
}

/// The values of the elements of a piped list from place `i` on, after those
/// in `found`.
pub open spec fn pipe_values_from(
    facts: Seq<FactView>,
    env: EnvironmentView,
    elements: Seq<ElementView>,
    i: nat,
    line: usize,
    depth: nat,
    found: Seq<ValueView>,
) -> Result<Seq<ValueView>, HaltView>
    decreases depth, 2nat, elements, elements.len() - i,
{
    if i >= elements.len() {
        Ok(found)
    } else {
        let resolved: Evaluated = match elements[i as int] {
            ElementView::Value(value) => Ok(value),
            ElementView::Identifier(id) => name_value(
                facts,
                env,
                id,
                failed(undefined_variable_message(id), line),
                depth,
            ),
        };
        match resolved {
            Err(halt) => Err(halt),
            Ok(value) => pipe_values_from(facts, env, elements, i + 1, line, depth, found.push(value)),
        }
    }
}

/// What the function named `right` makes of each of `values` from place `i`
/// on, after the results in `found`.
pub open spec fn pipe_results_from(
    facts: Seq<FactView>,
    env: EnvironmentView,
    right: Seq<char>,
    line: usize,
    values: Seq<ValueView>,
    i: nat,
    depth: nat,
    found: Seq<ElementView>,
) -> Result<Seq<ElementView>, HaltView>
    decreases depth, 2nat, values, values.len() - i,
{
    if i >= values.len() {
        Ok(found)
    } else {
        match named_value(facts, env, right, line, seq![values[i as int]], depth) {
            Err(halt) => Err(halt),
            Ok(result) => pipe_results_from(
                facts,
                env,
                right,
                line,
                values,
                i + 1,
                depth,
                found.push(ElementView::Value(result)),
            ),
        }
    }
}

/// What a value piped into the function named `right` gives. A list is mapped:
/// its elements are resolved, the function is called on each in order, and
/// the results make a list of the same length, whose type is that of the
/// list that came in. Any other value is passed to the function as it is.
pub open spec fn piped_value(
    facts: Seq<FactView>,
    env: EnvironmentView,
    value: ValueView,
    right: Seq<char>,
    line: usize,
    depth: nat,
) -> Evaluated
    decreases depth, 3nat, value, 0nat,
{
    match value {
        ValueView::List(list) => match pipe_values_from(
            facts,
            env,
            list.elements,
            0,
            line,
            depth,
            Seq::empty(),
        ) {
            Err(halt) => Err(halt),
            Ok(values) => match pipe_results_from(
                facts,
                env,
                right,
                line,
                values,
                0,
                depth,
                Seq::empty(),
            ) {
                Err(halt) => Err(halt),
                Ok(results) => Ok(
                    ValueView::List(ListView { list_type: type_of(value), elements: results, line }),
                ),
            },
        },
        _ => named_value(facts, env, right, line, seq![value], depth),
    }
}

/// What a pipe evaluates to: the value of its left side, piped into the
/// function named on its right. A value written on the left is taken as it
/// stands, so that a list there is resolved element by element as it is
/// mapped; any other expression is evaluated.
pub open spec fn pipe_value(
    facts: Seq<FactView>,
    env: EnvironmentView,
    left: ExpressionView,
    right: Seq<char>,
    line: usize,
    depth: nat,
) -> Evaluated
    decreases depth, 4nat, left, 1nat,
{
    let piped: Evaluated = match left {
        ExpressionView::Value(value) => Ok(value),
        ExpressionView::Operation { operator, arguments, line: at } => operation_value(
            facts,
            env,
            operator,
            arguments,
            at,
            depth,
        ),
        ExpressionView::FunctionCall { name, arguments, line: at } => call_value(
            facts,
            env,
            name,
            arguments,
            at,
            depth,
        ),
        ExpressionView::Pipe { left: inner, right: through, line: at } => pipe_value(
            facts,
            env,
            *inner,
            through,
            at,
            depth,
        ),
        ExpressionView::Conditional { .. } => expression_value(facts, env, left, depth),
    };
    match piped {
        Err(halt) => Err(halt),
        Ok(value) => piped_value(facts, env, value, right, line, depth),
    }
}

/// Whether a scope binds `id`.
pub open spec fn binds(scope: Seq<BindingView>, id: Seq<char>) -> bool {
    exists|i: int| 0 <= i < scope.len() && #[trigger] scope[i].name == id
}

/// The outermost scope of a program from its function at `i` on, after the
/// bindings in `found`: each function under its name. No name may be defined
/// twice.
pub open spec fn root_scope_from(
    functions: Seq<FunctionView>,
    i: nat,
    found: Seq<BindingView>,
) -> Result<Seq<BindingView>, HaltView>
    decreases functions.len() - i,
{
    if i >= functions.len() {
        Ok(found)
    } else {
        let function = functions[i as int];
        let name = function.definition.name;
        if binds(found, name.id) {
            Err(failed(already_defined_message(name.id), name.line))
        } else {
            root_scope_from(functions, i + 1, found.push(BindingView { name: name.id, function }))
        }
    }
}

/// The environment that programs run in: their own functions, inside a scope
/// of built-in functions, of which there are none.
pub open spec fn root_environment(scope: Seq<BindingView>) -> EnvironmentView {
    inside(outermost(Seq::empty()), scope)
}

/// What a program evaluates to: its function `main`, in the scope of all its
/// functions.
pub open spec fn program_value(
    facts: Seq<FactView>,
    functions: Seq<FunctionView>,
    depth: nat,
) -> Evaluated {
    match root_scope_from(functions, 0, Seq::empty()) {
        Err(halt) => Err(halt),
        Ok(scope) => match lookup(root_environment(scope), "main"@) {
            None => Err(failed("main function not found"@, 0)),
            Some(main) => function_value(facts, root_environment(scope), main, depth),
        },
    }
}

} // verus!
