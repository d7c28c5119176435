use lemma::grammar::{
    Call, Conditional, Definition, Element, Expression, Function, List, Pipe, Program, Signature,
};
use lemma::interpreter::environment::{Binding, Environment};
use lemma::interpreter::fractions::{Answer, Fractions, Query};
use lemma::interpreter::Halt;
use lemma::tokens::{LocatedIdentifier, Operator, Type, Value};
use lemma::{ast, errors::CompilerError, interpreter, lexer};

#[test]
fn main_not_found() {
    let source = "Int -> Int ; add a = + a 1";
    let tokens = lexer::tokens(source).unwrap();
    let program = ast::build(tokens).unwrap();
    let output = interpreter::evaluate(program, &Fractions::new());
    assert!(matches!(
        output,
        Err(Halt::Failed(CompilerError::Interpreter(_, _)))
    ));
}

#[test]
fn arity_matches() {
    let source = "Int -> Int ; main a = + 1 1";
    let tokens = lexer::tokens(source).unwrap();
    let program = ast::build(tokens).unwrap();
    let output = interpreter::evaluate(program, &Fractions::new());
    assert!(output.is_ok())
}

#[test]
fn arity_mismatch_sig() {
    let source = "Int Int -> Int ; main a = + a 1";
    let tokens = lexer::tokens(source).unwrap();
    let program = ast::build(tokens).unwrap();
    let output = interpreter::evaluate(program, &Fractions::new());
    assert!(matches!(
        output,
        Err(Halt::Failed(CompilerError::Interpreter(_, _)))
    ));
}

#[test]
fn arity_mismatch_args() {
    let source = "Int -> Int ; a b = + a 1";
    let tokens = lexer::tokens(source).unwrap();
    let program = ast::build(tokens).unwrap();
    let output = interpreter::evaluate(program, &Fractions::new());
    assert!(matches!(
        output,
        Err(Halt::Failed(CompilerError::Interpreter(_, _)))
    ));
}

fn number(text: &str) -> f64 {
    text.parse::<f64>().unwrap()
}

fn answer(query: &Query) -> Answer {
    match query {
        Query::Negate(a) => Answer::Number((-number(a)).to_string()),
        Query::Apply(operator, a, b) => {
            let (x, y) = (number(a), number(b));
            match operator {
                Operator::Add => Answer::Number((x + y).to_string()),
                Operator::Sub => Answer::Number((x - y).to_string()),
                Operator::Mul => Answer::Number((x * y).to_string()),
                Operator::Div => Answer::Number((x / y).to_string()),
                Operator::Eq => Answer::Truth(x == y),
                Operator::Neq => Answer::Truth(x != y),
                Operator::Gt => Answer::Truth(x > y),
                Operator::Lt => Answer::Truth(x < y),
                Operator::Gte => Answer::Truth(x >= y),
                Operator::Lte => Answer::Truth(x <= y),
                _ => panic!("not an operator on fractional numbers"),
            }
        }
    }
}

fn run(source: &str) -> Result<Option<Value>, Halt> {
    let mut fractions = Fractions::new();
    let tokens = lexer::tokens(source).unwrap();
    let program = ast::build(tokens).unwrap();
    loop {
        match interpreter::evaluate(program.clone(), &fractions) {
            Err(Halt::Needs(query)) => {
                let known = answer(&query);
                fractions.record(query, known);
            }
            other => return other,
        }
    }
}

fn value(source: &str) -> Value {
    run(source).unwrap().unwrap()
}

fn failure(source: &str) -> (String, usize) {
    match run(source) {
        Err(Halt::Failed(CompilerError::Interpreter(message, line))) => (message, line),
        other => panic!("expected an interpreter error, found {:?}", other),
    }
}

fn shown(source: &str) -> String {
    value(source).to_string()
}

fn integer_list(list_type: Type, from: &[i64], line: usize) -> Value {
    Value::List(List {
        list_type,
        elements: from
            .iter()
            .map(|n| Element::Value(Value::Integer(*n)))
            .collect(),
        line,
    })
}

#[test]
fn integer_folds() {
    assert_eq!(value("-> Int\nmain = + 1 2 3 4 5"), Value::Integer(15));
    assert_eq!(value("-> Int\nmain = - 15 20 1"), Value::Integer(-6));
    assert_eq!(value("-> Int\nmain = * 2 3 7"), Value::Integer(42));
    assert_eq!(value("-> Int\nmain = / 100 5 2"), Value::Integer(10));
}

#[test]
fn fractional_folds() {
    assert_eq!(shown("-> Frac\nmain = / 15.0 3.0 2.0"), "2.5");
    assert_eq!(shown("-> Frac\nmain = * 1.0 2.0 3.0 4.0 5.0"), "120.0");
    assert_eq!(shown("-> Frac\nmain = + 0.5 0.25"), "0.75");
    assert_eq!(shown("-> Frac\nmain = - 1.5 2.0"), "-0.5");
}

#[test]
fn division_by_zero_is_an_error() {
    assert_eq!(
        failure("-> Int\nmain = / 15 3 0"),
        ("division by zero".to_string(), 2)
    );
    assert_eq!(
        failure("-> Frac\nmain = / 15.0 0.0 3.0"),
        ("division by zero".to_string(), 2)
    );
}

#[test]
fn a_fold_takes_numbers_of_one_type() {
    assert_eq!(
        failure("-> Int\nmain = + 1 2.0"),
        ("expected Int, found Frac".to_string(), 2)
    );
    assert_eq!(
        failure("-> Frac\nmain = + 1.0 2"),
        ("expected Frac, found Int".to_string(), 2)
    );
    assert_eq!(
        failure("-> Int\nmain = + true 2"),
        ("expected Numeric, found Bool".to_string(), 2)
    );
}

#[test]
fn signs() {
    assert_eq!(value("-> Int\nmain = - 5"), Value::Integer(-5));
    assert_eq!(value("-> Int\nmain = + 5"), Value::Integer(5));
    assert_eq!(shown("-> Frac\nmain = - 2.5"), "-2.5");
    assert_eq!(shown("-> Frac\nmain = + 2.5"), "2.5");
    assert_eq!(
        failure("-> Int\nmain = - \"a\""),
        ("expected Numeric, found Str".to_string(), 2)
    );
}

#[test]
fn operators_count_their_arguments() {
    assert_eq!(
        failure("-> Int\nmain = * 5"),
        ("operator `*` expects at least 2 argument".to_string(), 2)
    );
    assert_eq!(
        failure("-> Int\nmain = +"),
        ("operator `+` expects at least 2 argument".to_string(), 2)
    );
    assert_eq!(
        failure("-> Bool\nmain = < 1 2 3"),
        ("operator `<` expects exactly 2 arguments".to_string(), 2)
    );
    assert_eq!(
        failure("-> Bool\nmain = && true"),
        ("operator `&&` expects exactly 2 arguments".to_string(), 2)
    );
    assert_eq!(
        failure("-> Bool\nmain = ! true false"),
        ("operator `!` expects exactly 1 argument".to_string(), 2)
    );
}

#[test]
fn relational_operators() {
    assert_eq!(value("-> Bool\nmain = < 1 2"), Value::Boolean(true));
    assert_eq!(value("-> Bool\nmain = > 1 2"), Value::Boolean(false));
    assert_eq!(value("-> Bool\nmain = <= 2 2"), Value::Boolean(true));
    assert_eq!(value("-> Bool\nmain = >= 1 2"), Value::Boolean(false));
    assert_eq!(value("-> Bool\nmain = < 1.5 2.5"), Value::Boolean(true));
    assert_eq!(value("-> Bool\nmain = >= 1.5 2.5"), Value::Boolean(false));
    assert_eq!(
        failure("-> Bool\nmain = < 1 2.5"),
        ("expected Int, found Frac".to_string(), 2)
    );
}

#[test]
fn logical_operators() {
    assert_eq!(value("-> Bool\nmain = == true true"), Value::Boolean(true));
    assert_eq!(value("-> Bool\nmain = != true true"), Value::Boolean(false));
    assert_eq!(value("-> Bool\nmain = && true false"), Value::Boolean(false));
    assert_eq!(value("-> Bool\nmain = || true false"), Value::Boolean(true));
    assert_eq!(value("-> Bool\nmain = ! true"), Value::Boolean(false));
    assert_eq!(value("-> Bool\nmain = == 3 3"), Value::Boolean(true));
    assert_eq!(value("-> Bool\nmain = != 3 3"), Value::Boolean(false));
    assert_eq!(value("-> Bool\nmain = == 1.5 1.50"), Value::Boolean(true));
    assert_eq!(
        failure("-> Bool\nmain = && true 1"),
        ("expected Bool, found Int".to_string(), 2)
    );
    assert_eq!(
        failure("-> Bool\nmain = && 1 1"),
        ("type mismatch".to_string(), 2)
    );
    assert_eq!(
        failure("-> Bool\nmain = == 1 1.0"),
        ("type mismatch".to_string(), 2)
    );
    assert_eq!(
        failure("-> Bool\nmain = ! 1"),
        ("expected Bool, found Int".to_string(), 2)
    );
}

#[test]
fn a_signature_and_a_definition_must_agree_on_the_count() {
    assert_eq!(
        failure("Int Int -> Int\nmain a = + a 1"),
        (
            "function signature and definition arity mismatch: expected 2 parameters, found 1"
                .to_string(),
            2
        )
    );
}

#[test]
fn a_missing_argument_is_reported_where_it_is_used() {
    assert_eq!(
        failure("-> Int\nmain = add 1\nInt Int -> Int\nadd a b = + a b"),
        ("no argument passed for `b`".to_string(), 4)
    );
}

#[test]
fn an_undefined_function_is_reported() {
    assert_eq!(
        failure("-> Int\nmain = nothing 1"),
        ("undefined variable `nothing`".to_string(), 2)
    );
}

#[test]
fn a_name_defined_twice_is_an_error() {
    assert_eq!(
        failure("-> Int\nmain = 1\n-> Int\nmain = 2"),
        ("variable `main` already defined".to_string(), 4)
    );
}

#[test]
fn no_main_is_an_error_whatever_else_is_defined() {
    assert_eq!(
        failure("Int Int -> Int\nbroken a = + a 1"),
        ("main function not found".to_string(), 0)
    );
    assert_eq!(
        failure("-> Int\nfine = 1"),
        ("main function not found".to_string(), 0)
    );
}

#[test]
fn arguments_shadow_outer_names_inside_the_call_only() {
    let source = "-> Int
main = + (f 10) x
Int -> Int
f x = * x 2
-> Int
x = 1";
    assert_eq!(value(source), Value::Integer(21));
}

#[test]
fn arguments_are_bound_by_the_order_of_the_names() {
    // the parameters are held as `a b`, whatever order they were written in
    let source = "-> Int
main = first 1 2
Int Int -> Int
first b a = a";
    assert_eq!(value(source), Value::Integer(1));
}

#[test]
fn a_list_holds_values_of_its_type_only() {
    assert_eq!(
        failure("-> [Int]\nmain = Int[1 2 \"x\"]"),
        ("list type mismatch: expected Int, found Str".to_string(), 2)
    );
    assert_eq!(
        value("-> [Int]\nmain = Int[1 2 3]"),
        integer_list(Type::Int, &[1, 2, 3], 2)
    );
}

#[test]
fn a_list_resolves_the_names_in_it() {
    let source = "-> [Int]\nmain = Int[1 two]\n-> Int\ntwo = 2";
    assert_eq!(value(source), integer_list(Type::Int, &[1, 2], 2));
    assert_eq!(
        failure("-> [Int]\nmain = Int[1 two]"),
        ("undefined variable `two`".to_string(), 2)
    );
}

#[test]
fn a_pipe_maps_a_list_in_order() {
    let source = "-> [Int]
main = Int[1 2 3] >> double
Int -> Int
double x = * x 2";
    assert_eq!(
        value(source),
        integer_list(Type::List(Box::new(Type::Int)), &[2, 4, 6], 2)
    );
    assert_eq!(shown(source), "[2, 4, 6]");
}

#[test]
fn a_pipe_passes_a_single_value_on() {
    let source = "-> Int
main = + 1 2 >> double
Int -> Int
double x = * x 2";
    assert_eq!(value(source), Value::Integer(6));
}

#[test]
fn a_pipe_over_a_range() {
    let source = "-> [Int]
main = Int[3..1] >> square
Int -> Int
square x = * x x";
    assert_eq!(shown(source), "[9, 4, 1]");
}

#[test]
fn only_the_branch_taken_is_evaluated() {
    assert_eq!(
        value("-> Int\nmain = if < 1 2 then 10 else / 1 0"),
        Value::Integer(10)
    );
    assert_eq!(
        value("-> Int\nmain = if > 1 2 then nothing else 20"),
        Value::Integer(20)
    );
    assert_eq!(
        failure("-> Int\nmain = if 1 then 2 else 3"),
        ("expected Bool, found Int".to_string(), 2)
    );
}

#[test]
fn recursion_is_evaluated() {
    let source = "-> Int
main = fact 10
Int -> Int
fact n = if <= n 1 then 1 else * n (fact (- n 1))";
    assert_eq!(value(source), Value::Integer(3628800));
}

#[test]
fn recursion_without_end_is_stopped() {
    let source = "-> Int
main = loop 1
Int -> Int
loop n = loop n";
    let (message, _) = failure(source);
    assert_eq!(message, "recursion limit exceeded");
}

#[test]
fn values_are_shown() {
    assert_eq!(shown("-> Str\nmain = \"hello\""), "hello");
    assert_eq!(shown("-> Bool\nmain = true"), "true");
    assert_eq!(shown("-> Int\nmain = - 0 12"), "-12");
    assert_eq!(shown("-> Frac\nmain = + 1.5 1.5"), "3.0");
    assert_eq!(shown("-> [Str]\nmain = Str[\"a\" \"b\"]"), "[a, b]");
    assert_eq!(shown("-> [Int]\nmain = Int[]"), "[]");
    assert_eq!(Value::Integer(i64::MIN).to_string(), "-9223372036854775808");
    assert_eq!(Value::Integer(0).to_string(), "0");
}

#[test]
fn an_inner_scope_hides_and_the_outer_one_stays() {
    let one = lemma::interpreter::calls::to_fn(Value::Integer(1));
    let two = lemma::interpreter::calls::to_fn(Value::Integer(2));
    let three = lemma::interpreter::calls::to_fn(Value::Integer(3));
    let outer = Environment::new(vec![
        Binding { name: "x".to_string(), function: one },
        Binding { name: "y".to_string(), function: two },
    ]);
    {
        let inner = Environment::with_enclosing(
            vec![Binding { name: "x".to_string(), function: three }],
            &outer,
        );
        let x = inner.get(&"x".to_string()).unwrap();
        assert_eq!(x.definition.name.id, "3");
        let y = inner.get(&"y".to_string()).unwrap();
        assert_eq!(y.definition.name.id, "2");
        assert!(inner.get(&"z".to_string()).is_none());
    }
    let x = outer.get(&"x".to_string()).unwrap();
    assert_eq!(x.definition.name.id, "1");
}

#[test]
fn errors_are_reported_with_their_phase_and_line() {
    assert_eq!(
        CompilerError::Lexer("bad".to_string(), 3).to_string(),
        "Lexer error: bad (line 3)"
    );
    assert_eq!(
        CompilerError::Parser("bad".to_string(), 12).to_string(),
        "Parser error: bad (line 12)"
    );
    assert_eq!(
        CompilerError::Interpreter("bad".to_string(), 4).to_string(),
        "Interpreter error: bad (line 4)"
    );
    assert_eq!(
        CompilerError::Interpreter("bad".to_string(), 0).to_string(),
        "Interpreter error: bad"
    );
    assert_eq!(
        lemma::errors::unexpected_type(&Type::Int, &Type::List(Box::new(Type::Str)), 1),
        CompilerError::Interpreter("expected Int, found [Str]".to_string(), 1)
    );
    assert_eq!(
        lemma::errors::unexpected_token("then", 2),
        CompilerError::Interpreter("expected `then`".to_string(), 2)
    );
    assert_eq!(
        lemma::errors::wrong_operator_arity(&Operator::Not, 2),
        CompilerError::Interpreter("operator `!` expects exactly 1 argument".to_string(), 2)
    );
}

#[test]
fn the_depth_of_an_evaluation_can_be_chosen() {
    let source = "-> Int
main = count 3
Int -> Int
count n = if <= n 0 then 0 else + 1 (count (- n 1))";
    let program = ast::build(lexer::tokens(source).unwrap()).unwrap();
    // `main`, then `count` four times, each with a look at `n` one level below
    let enough = interpreter::evaluate_within(program.clone(), &Fractions::new(), 6);
    assert_eq!(enough, Ok(Some(Value::Integer(3))));
    let short = interpreter::evaluate_within(program, &Fractions::new(), 5);
    assert!(matches!(
        short,
        Err(Halt::Failed(CompilerError::Interpreter(_, _)))
    ));
}

#[test]
fn a_list_passed_as_an_argument_is_resolved_where_it_is_used() {
    let source = "-> [Int]
main = id Int[1 x]
[Int] -> [Int]
id l = l
-> Int
x = 5";
    assert_eq!(value(source), integer_list(Type::Int, &[1, 5], 2));
}

#[test]
fn strings_cannot_be_compared() {
    assert_eq!(
        failure("-> Bool\nmain = == \"a\" \"a\""),
        ("type mismatch".to_string(), 2)
    );
}

#[test]
fn a_pipe_into_a_function_without_parameters_drops_the_value() {
    let source = "-> Int\nmain = 1 >> seven\n-> Int\nseven = 7";
    assert_eq!(value(source), Value::Integer(7));
}

#[test]
fn a_pipe_into_nothing_is_an_error() {
    assert_eq!(
        failure("-> Int\nmain = 1 >> nope"),
        ("undefined variable `nope`".to_string(), 2)
    );
    assert_eq!(
        failure("-> [Int]\nmain = Int[1 y] >> nope"),
        ("undefined variable `y`".to_string(), 2)
    );
}

#[test]
fn a_name_alone_is_evaluated_without_arguments() {
    let source = "-> Int\nmain = + one 1\nInt -> Int\none a = 1";
    assert_eq!(value(source), Value::Integer(2));
}

#[test]
fn a_conditional_may_stand_in_parentheses() {
    let source = "-> Int\nmain = + 1 (if > 2 1 then 10 else 20)";
    assert_eq!(value(source), Value::Integer(11));
}

#[test]
fn arguments_beyond_the_parameters_are_not_evaluated() {
    let source = "-> Int\nmain = one 1 (/ 1 0)\nInt -> Int\none a = a";
    assert_eq!(value(source), Value::Integer(1));
}

#[test]
fn the_sign_of_the_smallest_integer_cannot_be_turned() {
    let source = "-> Int\nmain = - (- (- 9223372036854775807) 1)";
    assert_eq!(failure(source), ("integer overflow".to_string(), 2));
    assert_eq!(
        failure("-> Int\nmain = + 9223372036854775807 1"),
        ("integer overflow".to_string(), 2)
    );
}

#[test]
fn fractional_numbers_decide_conditionals() {
    let source = "-> Frac\nmain = if < 0.5 1.5 then * 2.0 0.25 else 0.0";
    assert_eq!(shown(source), "0.5");
}

#[test]
fn a_conditional_on_the_left_of_a_pipe_is_evaluated() {
    // the first pipe belongs to the branch behind `else`, the second takes
    // the whole conditional
    let source = "-> Int
main = if true then 1 else 2 >> same >> double
Int -> Int
double x = * x 2
Int -> Int
same x = x";
    assert_eq!(value(source), Value::Integer(2));
    let other = "-> Int
main = if false then 1 else 2 >> same >> double
Int -> Int
double x = * x 2
Int -> Int
same x = x";
    assert_eq!(value(other), Value::Integer(4));
}

#[test]
fn a_conditional_that_gives_a_list_is_mapped_in_order() {
    let source = "-> [Int]
main = if < 1 2 then Int[1 2 three] else Int[] >> same >> double
Int -> Int
double x = * x 2
-> Int
three = 3";
    assert_eq!(
        value(source),
        integer_list(Type::List(Box::new(Type::Int)), &[2, 4, 6], 2)
    );
}

#[test]
fn a_conditional_on_the_left_of_a_pipe_passes_its_errors_on() {
    let source = "-> Int
main = if 1 then 1 else 2 >> same >> double
Int -> Int
double x = * x 2";
    assert_eq!(failure(source), ("expected Bool, found Int".to_string(), 2));
}

#[test]
fn a_pipe_built_by_hand_over_a_conditional() {
    let double = ast::build(lexer::tokens("Int -> Int\ndouble x = * x 2").unwrap())
        .unwrap()
        .functions
        .remove(0);
    let main = Function {
        signature: Signature {
            parameters: vec![],
            returns: Type::Int,
        },
        definition: Definition {
            name: LocatedIdentifier {
                id: "main".to_string(),
                line: 1,
            },
            parameters: vec![],
            body: Expression::Call(Call::Pipe(Pipe {
                left: Box::new(Expression::Conditional(Conditional {
                    condition: Box::new(Expression::Value(Value::Boolean(true))),
                    then: Box::new(Expression::Value(Value::Integer(1))),
                    otherwise: Box::new(Expression::Value(Value::Integer(2))),
                    line: 1,
                })),
                right: "double".to_string(),
                line: 1,
            })),
        },
    };
    let program = Program {
        functions: vec![main, double],
    };
    assert_eq!(
        interpreter::evaluate(program, &Fractions::new()),
        Ok(Some(Value::Integer(2)))
    );
}
