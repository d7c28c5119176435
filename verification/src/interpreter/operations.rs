//! The value of an operation.

use crate::errors;
use crate::grammar::{arguments_view, Operation};
use crate::interpreter::arguments;
use crate::interpreter::environment::Environment;
use crate::interpreter::fractions::{Fractions, Query, QueryView};
use crate::interpreter::meaning::{
    arithmetic, bool_op, compare, fold_from, folded, fraction_arithmetic, fraction_compare,
    fraction_fold_from, fraction_folded, fractions_from, has_zero_from, integers_from,
    operation_value, zero_among, zero_text, HaltView,
};
use crate::interpreter::{agrees, failure, Halt};
use crate::tokens::{class_of, Operator, OperatorType, Type, Value, ValueView};
use vstd::prelude::*;
use vstd::string::*;

verus! {

/// Evaluates an operation in `env`, by the class of its operator.
pub fn eval(env: &Environment, operation: &Operation, fractions: &Fractions, depth: usize) -> (result:
    Result<Option<Value>, Halt>)
    ensures
        agrees(
            result,
            operation_value(
                fractions@,
                env@,
                operation.operator,
                arguments_view(operation.arguments),
                operation.line,
                depth as nat,
            ),
        ),
    decreases depth, 4nat, operation, 2nat,
{
    match operation.operator.operator_type() {
        OperatorType::Unary => eval_unary(env, operation, fractions, depth),
        OperatorType::Binary => eval_binary(env, operation, fractions, depth),
        OperatorType::Relational => eval_relational(env, operation, fractions, depth),
        OperatorType::Logical => eval_logical(env, operation, fractions, depth),
    }
}

fn eval_unary(env: &Environment, op: &Operation, fractions: &Fractions, depth: usize) -> (result:
    Result<Option<Value>, Halt>)
    requires
        class_of(op.operator) == OperatorType::Unary,
    ensures
        agrees(
            result,
            operation_value(
                fractions@,
                env@,
                op.operator,
                arguments_view(op.arguments),
                op.line,
                depth as nat,
            ),
        ),
    decreases depth, 4nat, op, 1nat,
{
    if op.arguments.len() != 1 {
        return Err(Halt::Failed(errors::wrong_operator_arity(&op.operator, op.line)));
    }
    let value = arguments::eval(env, &op.arguments[0], fractions, depth)?;
    match value {
        Value::Boolean(b) => Ok(Some(Value::Boolean(!b))),
        _ => Err(Halt::Failed(errors::unexpected_type(&Type::Bool, &value.get_type(), op.line))),
    }
}

fn eval_binary(env: &Environment, op: &Operation, fractions: &Fractions, depth: usize) -> (result:
    Result<Option<Value>, Halt>)
    requires
        class_of(op.operator) == OperatorType::Binary,
    ensures
        agrees(
            result,
            operation_value(
                fractions@,
                env@,
                op.operator,
                arguments_view(op.arguments),
                op.line,
                depth as nat,
            ),
        ),
    decreases depth, 4nat, op, 1nat,
{
    let line = op.line;

    // Unary operations handled here for numeric values: -x turns the sign of
    // x, +x is x.
    if op.arguments.len() == 1 {
        return if op.operator == Operator::Add || op.operator == Operator::Sub {
            eval_unary_numeric(env, op, fractions, depth)
        } else {
            Err(Halt::Failed(errors::wrong_operator_arity(&op.operator, op.line)))
        };
    }
    if op.arguments.len() < 2 {
        return Err(Halt::Failed(errors::wrong_operator_arity(&op.operator, op.line)));
    }
    let value = arguments::eval(env, &op.arguments[0], fractions, depth)?;
    match value {
        Value::Integer(i) => eval_int_op(env, op, i, fractions, depth),
        Value::Fractional(f) => eval_frac_op(env, op, f, fractions, depth),
        _ => Err(Halt::Failed(errors::unexpected_type_class("Numeric", &value.get_type(), line))),
    }
}

/// The truth value that the facts give for a comparison of two fractional
/// numbers.
fn compare_fractions(fractions: &Fractions, operator: Operator, f: &String, g: &String) -> (result:
    Result<Option<Value>, Halt>)
    ensures
        agrees(result, fraction_compare(fractions@, operator, f@, g@)),
{
    let query = Query::Apply(operator, f.clone(), g.clone());
    match fractions.truth(&query) {
        Some(holds) => Ok(Some(Value::Boolean(holds))),
        None => Err(Halt::Needs(query)),
    }
}

/// What a comparison makes of two integers.
pub fn eval_comparison(operator: &Operator, first: i64, second: i64) -> (holds: bool)
    ensures
        holds == compare(*operator, first as int, second as int),
{
    match operator {
        Operator::Lt => first < second,
        Operator::Lte => first <= second,
        Operator::Gt => first > second,
        Operator::Gte => first >= second,
        Operator::Eq => first == second,
        _ => first != second,
    }
}

fn eval_relational(env: &Environment, op: &Operation, fractions: &Fractions, depth: usize) -> (result:
    Result<Option<Value>, Halt>)
    requires
        class_of(op.operator) == OperatorType::Relational,
    ensures
        agrees(
            result,
            operation_value(
                fractions@,
                env@,
                op.operator,
                arguments_view(op.arguments),
                op.line,
                depth as nat,
            ),
        ),
    decreases depth, 4nat, op, 1nat,
{
    if op.arguments.len() != 2 {
        return Err(Halt::Failed(errors::wrong_operator_arity(&op.operator, op.line)));
    }
    let first = arguments::eval(env, &op.arguments[0], fractions, depth)?;
    let second = arguments::eval(env, &op.arguments[1], fractions, depth)?;

    match (&first, &second) {
        (Value::Integer(i), Value::Integer(j)) => {
            Ok(Some(Value::Boolean(eval_comparison(&op.operator, *i, *j))))
        },
        (Value::Fractional(f), Value::Fractional(g)) => compare_fractions(
            fractions,
            op.operator,
            f,
            g,
        ),
        _ => Err(
            Halt::Failed(errors::unexpected_type(&first.get_type(), &second.get_type(), op.line)),
        ),
    }
}

/// Evaluates `==`, `!=`, `&&` or `||` on two arguments.
pub fn eval_logical(env: &Environment, op: &Operation, fractions: &Fractions, depth: usize) -> (result:
    Result<Option<Value>, Halt>)
    requires
        class_of(op.operator) == OperatorType::Logical,
    ensures
        agrees(
            result,
            operation_value(
                fractions@,
                env@,
                op.operator,
                arguments_view(op.arguments),
                op.line,
                depth as nat,
            ),
        ),
    decreases depth, 4nat, op, 1nat,
{
    if op.arguments.len() != 2 {
        return Err(Halt::Failed(errors::wrong_operator_arity(&op.operator, op.line)));
    }
    let first = arguments::eval(env, &op.arguments[0], fractions, depth)?;
    let second = arguments::eval(env, &op.arguments[1], fractions, depth)?;
    let equality = op.operator == Operator::Eq || op.operator == Operator::Neq;

    if let Value::Boolean(a) = first {
        match second {
            Value::Boolean(b) => {
                let result = eval_bool_op(&op.operator, a, b);
                Ok(Some(Value::Boolean(result)))
            },
            _ => Err(
                Halt::Failed(errors::unexpected_type(&Type::Bool, &second.get_type(), op.line)),
            ),
        }
    } else {
        // If the first argument is not a boolean, assume comparison of numeric values
        match (&first, &second) {
            (Value::Integer(i), Value::Integer(j)) => {
                if equality {
                    Ok(Some(Value::Boolean(eval_comparison(&op.operator, *i, *j))))
                } else {
                    Err(failure("type mismatch", op.line))
                }
            },
            (Value::Fractional(f), Value::Fractional(g)) => {
                if equality {
                    compare_fractions(fractions, op.operator, f, g)
                } else {
                    Err(failure("type mismatch", op.line))
                }
            },
            _ => Err(failure("type mismatch", op.line)),
        }
    }
}

fn eval_unary_numeric(env: &Environment, op: &Operation, fractions: &Fractions, depth: usize) -> (result:
    Result<Option<Value>, Halt>)
    requires
        op.arguments.len() == 1,
        op.operator == Operator::Add || op.operator == Operator::Sub,
    ensures
        agrees(
            result,
            operation_value(
                fractions@,
                env@,
                op.operator,
                arguments_view(op.arguments),
                op.line,
                depth as nat,
            ),
        ),
    decreases depth, 4nat, op, 0nat,
{
    let line = op.line;
    let value = arguments::eval(env, &op.arguments[0], fractions, depth)?;

    if op.operator == Operator::Sub {
        match value {
            Value::Integer(i) => {
                if i == i64::MIN {
                    Err(failure("integer overflow", line))
                } else {
                    Ok(Some(Value::Integer(-i)))
                }
            },
            Value::Fractional(f) => {
                let query = Query::Negate(f);
                match fractions.number(&query) {
                    Some(n) => Ok(Some(Value::Fractional(n))),
                    None => Err(Halt::Needs(query)),
                }
            },
            _ => Err(
                Halt::Failed(errors::unexpected_type_class("Numeric", &value.get_type(), line)),
            ),
        }
    } else {
        match value {
            Value::Integer(i) => Ok(Some(Value::Integer(i))),
            Value::Fractional(f) => Ok(Some(Value::Fractional(f))),
            _ => Err(
                Halt::Failed(errors::unexpected_type_class("Numeric", &value.get_type(), line)),
            ),
        }
    }
}

fn eval_int_op(
    env: &Environment,
    op: &Operation,
    first: i64,
    fractions: &Fractions,
    depth: usize,
) -> (result: Result<Option<Value>, Halt>)
    requires
        class_of(op.operator) == OperatorType::Binary,
        op.arguments.len() >= 2,
    ensures
        match integers_from(
            fractions@,
            env@,
            arguments_view(op.arguments),
            1,
            op.line,
            depth as nat,
            seq![first],
        ) {
            Err(halt) => result matches Err(h) && h@ == halt,
            Ok(integers) => match arithmetic(op.operator, integers) {
                Ok(n) => result matches Ok(Some(v)) && v@ == ValueView::Integer(n),
                Err(message) => result matches Err(h) && h@ == crate::interpreter::meaning::failed(
                    message,
                    op.line,
                ),
            },
        },
    decreases depth, 4nat, op, 0nat,
{
    let mut args: Vec<i64> = Vec::new();
    args.push(first);
    let ghost wanted = arguments_view(op.arguments);

    let mut i: usize = 1;
    while i < op.arguments.len()
        invariant
            1 <= i <= op.arguments.len(),
            args.len() >= 1,
            wanted == arguments_view(op.arguments),
            integers_from(fractions@, env@, wanted, 1, op.line, depth as nat, seq![first])
                == integers_from(
                fractions@,
                env@,
                wanted,
                i as nat,
                op.line,
                depth as nat,
                args@,
            ),
        decreases op.arguments.len() - i,
    {
        let v = arguments::eval(env, &op.arguments[i], fractions, depth)?;
        if let Value::Integer(n) = v {
            args.push(n);
        } else {
            return Err(Halt::Failed(errors::unexpected_type(&Type::Int, &v.get_type(), op.line)));
        }
        i += 1;
    }

    match eval_arithmetic(&op.operator, args.as_slice()) {
        Ok(result) => Ok(Some(Value::Integer(result))),
        Err(e) => Err(Halt::Failed(errors::CompilerError::Interpreter(e, op.line))),
    }
}

/// The texts of a sequence of strings.
pub open spec fn texts_view(texts: Seq<String>) -> Seq<Seq<char>> {
    Seq::new(texts.len(), |i: int| texts[i]@)
}

fn eval_frac_op(
    env: &Environment,
    op: &Operation,
    first: String,
    fractions: &Fractions,
    depth: usize,
) -> (result: Result<Option<Value>, Halt>)
    requires
        class_of(op.operator) == OperatorType::Binary,
        op.arguments.len() >= 2,
    ensures
        match fractions_from(
            fractions@,
            env@,
            arguments_view(op.arguments),
            1,
            op.line,
            depth as nat,
            seq![first@],
        ) {
            Err(halt) => result matches Err(h) && h@ == halt,
            Ok(texts) => match fraction_arithmetic(fractions@, op.operator, texts, op.line) {
                Ok(t) => result matches Ok(Some(v)) && v@ == ValueView::Fractional(t),
                Err(halt) => result matches Err(h) && h@ == halt,
            },
        },
    decreases depth, 4nat, op, 0nat,
{
    let mut args: Vec<String> = Vec::new();
    args.push(first);
    assert(texts_view(args@) =~= seq![first@]);
    let ghost wanted = arguments_view(op.arguments);

    let mut i: usize = 1;
    while i < op.arguments.len()
        invariant
            1 <= i <= op.arguments.len(),
            args.len() >= 1,
            wanted == arguments_view(op.arguments),
            fractions_from(fractions@, env@, wanted, 1, op.line, depth as nat, seq![first@])
                == fractions_from(
                fractions@,
                env@,
                wanted,
                i as nat,
                op.line,
                depth as nat,
                texts_view(args@),
            ),
        decreases op.arguments.len() - i,
    {
        let ghost before = texts_view(args@);
        let v = arguments::eval(env, &op.arguments[i], fractions, depth)?;
        if let Value::Fractional(f) = v {
            args.push(f);
            assert(texts_view(args@) =~= before.push(f@));
        } else {
            return Err(
                Halt::Failed(errors::unexpected_type(&Type::Frac, &v.get_type(), op.line)),
            );
        }
        i += 1;
    }

    match eval_fraction_arithmetic(fractions, &op.operator, &args, op.line) {
        Ok(result) => Ok(Some(Value::Fractional(result))),
        Err(halt) => Err(halt),
    }
}

/// Folds an arithmetic operator over fractional numbers, each step as the
/// facts give it.
pub fn eval_fraction_arithmetic(
    fractions: &Fractions,
    operator: &Operator,
    args: &Vec<String>,
    line: usize,
) -> (result: Result<String, Halt>)
    requires
        class_of(*operator) == OperatorType::Binary,
        *operator == Operator::Sub || *operator == Operator::Div ==> args.len() >= 1,
    ensures
        match fraction_arithmetic(fractions@, *operator, texts_view(args@), line) {
            Ok(t) => result matches Ok(r) && r@ == t,
            Err(halt) => result matches Err(h) && h@ == halt,
        },
{
    let ghost texts = texts_view(args@);
    if *operator == Operator::Div {
        let mut k: usize = 1;
        while k < args.len()
            invariant
                1 <= k <= args.len(),
                *operator == Operator::Div,
                texts == texts_view(args@),
                zero_among(fractions@, texts, 1) == zero_among(fractions@, texts, k as nat),
            decreases args.len() - k,
        {
            let query = Query::Apply(Operator::Eq, args[k].clone(), String::from_str("0"));
            assert(query@ == QueryView::Apply(Operator::Eq, texts[k as int], zero_text()));
            match fractions.truth(&query) {
                None => {
                    return Err(Halt::Needs(query));
                },
                Some(true) => {
                    return Err(failure("division by zero", line));
                },
                Some(false) => {},
            }
            k += 1;
        }
    }
    let mut acc: String = match operator {
        Operator::Add => String::from_str("0"),
        Operator::Mul => String::from_str("1"),
        _ => args[0].clone(),
    };
    let mut i: usize = match operator {
        Operator::Add => 0,
        Operator::Mul => 0,
        _ => 1,
    };
    while i < args.len()
        invariant
            i <= args.len(),
            texts == texts_view(args@),
            *operator == Operator::Div ==> zero_among(fractions@, texts, 1) == Ok::<bool, HaltView>(
                false,
            ),
            fraction_folded(fractions@, *operator, texts) == fraction_fold_from(
                fractions@,
                *operator,
                acc@,
                texts,
                i as nat,
            ),
        decreases args.len() - i,
    {
        let query = Query::Apply(*operator, acc, args[i].clone());
        match fractions.number(&query) {
            None => {
                return Err(Halt::Needs(query));
            },
            Some(next) => {
                acc = next;
            },
        }
        i += 1;
    }
    Ok(acc)
}

/// Folds an arithmetic operator over integers: `+` gives their sum from 0,
/// `*` their product from 1, `-` the first less each of the others, `/` the
/// first divided by each of the others in turn.
pub fn eval_arithmetic(operator: &Operator, args: &[i64]) -> (result: Result<i64, String>)
    requires
        class_of(*operator) == OperatorType::Binary,
        *operator == Operator::Sub || *operator == Operator::Div ==> args.len() >= 1,
    ensures
        match arithmetic(*operator, args@) {
            Ok(n) => result == Ok::<i64, String>(n),
            Err(message) => result matches Err(e) && e@ == message,
        },
{
    if *operator == Operator::Div {
        let mut k: usize = 1;
        while k < args.len()
            invariant
                1 <= k <= args.len(),
                *operator == Operator::Div,
                forall|j: int| 1 <= j < k ==> args[j] != 0,
            decreases args.len() - k,
        {
            if args[k] == 0 {
                assert(has_zero_from(args@, 1));
                return Err(String::from_str("division by zero"));
            }
            k += 1;
        }
        assert(!has_zero_from(args@, 1));
    }
    let mut acc: i64 = match operator {
        Operator::Add => 0,
        Operator::Mul => 1,
        _ => args[0],
    };
    let mut i: usize = match operator {
        Operator::Add => 0,
        Operator::Mul => 0,
        _ => 1,
    };
    while i < args.len()
        invariant
            i <= args.len(),
            class_of(*operator) == OperatorType::Binary,
            *operator == Operator::Div ==> !has_zero_from(args@, 1),
            *operator == Operator::Div ==> i >= 1,
            folded(*operator, args@) == fold_from(*operator, acc as int, args@, i as nat),
        decreases args.len() - i,
    {
        let x = args[i];
        assert(*operator == Operator::Div ==> x != 0);
        let next = match operator {
            Operator::Add => acc.checked_add(x),
            Operator::Sub => acc.checked_sub(x),
            Operator::Mul => acc.checked_mul(x),
            _ => acc.checked_div(x),
        };
        match next {
            Some(n) => {
                acc = n;
            },
            None => {
                return Err(String::from_str("integer overflow"));
            },
        }
        i += 1;
    }
    Ok(acc)
}

/// What a logical operator makes of two truth values.
pub fn eval_bool_op(operator: &Operator, first: bool, second: bool) -> (result: bool)
    requires
        class_of(*operator) == OperatorType::Logical,
    ensures
        result == bool_op(*operator, first, second),
{
    match operator {
        Operator::Eq => first == second,
        Operator::Neq => first != second,
        Operator::And => first && second,
        _ => first || second,
    }
}

} // verus!
