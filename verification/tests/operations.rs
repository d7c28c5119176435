use lemma::grammar::{Argument, Operation};
use lemma::interpreter::environment::Environment;
use lemma::interpreter::fractions::{Answer, Fractions, Query};
use lemma::interpreter::operations::{
    eval_arithmetic, eval_bool_op, eval_fraction_arithmetic, eval_logical,
};
use lemma::interpreter::Halt;
use lemma::tokens::{Operator, Value};

fn number(text: &str) -> f64 {
    text.parse::<f64>().unwrap()
}

fn answer(query: &Query) -> Answer {
    match query {
        Query::Negate(a) => Answer::Number((-number(a)).to_string()),
        Query::Apply(operator, a, b) => {
            let (x, y) = (number(a), number(b));
            match operator {
                Operator::Add => Answer::Number((x + y).to_string()),
                Operator::Sub => Answer::Number((x - y).to_string()),
                Operator::Mul => Answer::Number((x * y).to_string()),
                Operator::Div => Answer::Number((x / y).to_string()),
                Operator::Eq => Answer::Truth(x == y),
                Operator::Neq => Answer::Truth(x != y),
                Operator::Gt => Answer::Truth(x > y),
                Operator::Lt => Answer::Truth(x < y),
                Operator::Gte => Answer::Truth(x >= y),
                Operator::Lte => Answer::Truth(x <= y),
                _ => panic!("not an operator on fractional numbers"),
            }
        }
    }
}

fn fold(operator: &Operator, args: &[f64]) -> Result<f64, Halt> {
    let texts: Vec<String> = args.iter().map(|a| a.to_string()).collect();
    let mut fractions = Fractions::new();
    loop {
        match eval_fraction_arithmetic(&fractions, operator, &texts, 7) {
            Ok(text) => return Ok(number(&text)),
            Err(Halt::Needs(query)) => {
                let known = answer(&query);
                fractions.record(query, known);
            }
            Err(halt) => return Err(halt),
        }
    }
}

#[test]
fn integer_addition() {
    let op = Operator::Add;
    let args = vec![1, 2, 3, 4, 5];
    let result = eval_arithmetic(&op, &args).unwrap();
    assert_eq!(result, 15);
}

#[test]
fn integer_subtraction() {
    let op = Operator::Sub;
    let args = vec![15, 20, 1];
    let result = eval_arithmetic(&op, &args).unwrap();
    assert_eq!(result, -6);
}

#[test]
fn fractional_multiplication() {
    let op = Operator::Mul;
    let args = vec![1.0, 2.0, 3.0, 4.0, 5.0];
    let result = fold(&op, &args).unwrap();
    assert_eq!(result, 120.0);
}

#[test]
fn fractional_division() {
    let op = Operator::Div;
    let args = vec![15.0, 3.0, 2.0];
    let result = fold(&op, &args).unwrap();
    assert_eq!(result, 2.5);
}

#[test]
fn boolean_eq() {
    let op = Operator::Eq;
    let result = eval_bool_op(&op, true, true);
    assert!(result);
}

#[test]
fn boolean_neq() {
    let op = Operator::Neq;
    let result = eval_bool_op(&op, true, false);
    assert!(result);
}

#[test]
fn boolean_and() {
    let op = Operator::And;
    let result = eval_bool_op(&op, true, false);
    assert!(!result);
}

#[test]
fn boolean_or() {
    let op = Operator::Or;
    let result = eval_bool_op(&op, true, false);
    assert!(result);
}

#[test]
fn eval_logical_op() {
    let env = Environment::new(Vec::new());
    let fractions = Fractions::new();

    let ops = vec![
        (Operator::Eq, true, true, true),
        (Operator::Neq, true, false, true),
        (Operator::Or, true, false, true),
        (Operator::And, true, false, false),
    ];

    for (op, first, second, expected) in ops {
        let operation = Operation {
            operator: op,
            arguments: vec![
                Argument::Value(Value::Boolean(first)),
                Argument::Value(Value::Boolean(second)),
            ],
            line: 0,
        };

        let result = eval_logical(&env, &operation, &fractions, 10).unwrap().unwrap();
        assert_eq!(result, Value::Boolean(expected));
    }
}

#[test]
fn integer_multiplication_starts_at_one() {
    assert_eq!(eval_arithmetic(&Operator::Mul, &[2, 3, 7]), Ok(42));
    assert_eq!(eval_arithmetic(&Operator::Mul, &[]), Ok(1));
    assert_eq!(eval_arithmetic(&Operator::Add, &[]), Ok(0));
}

#[test]
fn integer_division_folds_left_and_rounds_toward_zero() {
    assert_eq!(eval_arithmetic(&Operator::Div, &[100, 5, 2]), Ok(10));
    assert_eq!(eval_arithmetic(&Operator::Div, &[-7, 2]), Ok(-3));
    assert_eq!(eval_arithmetic(&Operator::Div, &[7, -2]), Ok(-3));
    assert_eq!(eval_arithmetic(&Operator::Div, &[-7, -2]), Ok(3));
    assert_eq!(eval_arithmetic(&Operator::Div, &[0, 5]), Ok(0));
}

#[test]
fn integer_division_by_zero_is_an_error() {
    assert_eq!(
        eval_arithmetic(&Operator::Div, &[10, 2, 0]),
        Err("division by zero".to_string())
    );
    assert_eq!(
        eval_arithmetic(&Operator::Div, &[10, 0, 2]),
        Err("division by zero".to_string())
    );
    // only the divisors are held against zero
    assert_eq!(eval_arithmetic(&Operator::Div, &[0, 2]), Ok(0));
}

#[test]
fn integer_overflow_is_an_error() {
    assert_eq!(
        eval_arithmetic(&Operator::Add, &[i64::MAX, 1]),
        Err("integer overflow".to_string())
    );
    assert_eq!(
        eval_arithmetic(&Operator::Sub, &[i64::MIN, 1]),
        Err("integer overflow".to_string())
    );
    assert_eq!(
        eval_arithmetic(&Operator::Mul, &[i64::MAX, 2]),
        Err("integer overflow".to_string())
    );
    assert_eq!(
        eval_arithmetic(&Operator::Div, &[i64::MIN, -1]),
        Err("integer overflow".to_string())
    );
    // a step that leaves the range counts even where the end would fit
    assert_eq!(
        eval_arithmetic(&Operator::Add, &[i64::MAX, 1, -1]),
        Err("integer overflow".to_string())
    );
}

#[test]
fn fractional_addition_and_subtraction() {
    assert_eq!(fold(&Operator::Add, &[0.5, 0.25, 1.0]).unwrap(), 1.75);
    assert_eq!(fold(&Operator::Sub, &[15.0, 20.0, 1.0]).unwrap(), -6.0);
}

#[test]
fn fractional_division_by_zero_is_an_error() {
    let halt = fold(&Operator::Div, &[15.0, 0.0]).unwrap_err();
    assert_eq!(
        halt,
        Halt::Failed(lemma::errors::CompilerError::Interpreter(
            "division by zero".to_string(),
            7
        ))
    );
}

#[test]
fn a_missing_fact_is_named() {
    let fractions = Fractions::new();
    let texts = vec!["1.5".to_string(), "2.5".to_string()];
    let halt = eval_fraction_arithmetic(&fractions, &Operator::Sub, &texts, 1).unwrap_err();
    assert_eq!(
        halt,
        Halt::Needs(Query::Apply(
            Operator::Sub,
            "1.5".to_string(),
            "2.5".to_string()
        ))
    );
}

#[test]
fn the_later_of_two_facts_counts() {
    let mut fractions = Fractions::new();
    let query = Query::Negate("1.5".to_string());
    fractions.record(query.clone(), Answer::Number("wrong".to_string()));
    fractions.record(query.clone(), Answer::Number("-1.5".to_string()));
    assert_eq!(fractions.number(&query), Some("-1.5".to_string()));
    assert_eq!(fractions.truth(&query), None);
    assert_eq!(fractions.len(), 2);
}

#[test]
fn fractional_folds_of_nothing_are_the_starting_numbers() {
    assert_eq!(fold(&Operator::Add, &[]).unwrap(), 0.0);
    assert_eq!(fold(&Operator::Mul, &[]).unwrap(), 1.0);
    assert_eq!(fold(&Operator::Sub, &[4.5]).unwrap(), 4.5);
    assert_eq!(fold(&Operator::Div, &[4.5]).unwrap(), 4.5);
}
