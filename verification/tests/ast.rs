use lemma::grammar::{Argument, Call, Element, Expression};
use lemma::tokens::{Operator, Token, Type, Value};
use lemma::{ast, errors::CompilerError, lexer};

#[test]
fn multiple_functions_parsed() {
    let source = "
        Int -> Int
        add-one a = + a 1

        Int -> Int
        add-two a = + a 2";
    let tokens = lexer::tokens(source).unwrap();
    let program = ast::build(tokens);
    assert!(program.is_ok());
    assert_eq!(program.unwrap().functions.len(), 2);
}

#[test]
fn parens_matched() {
    let source = "
        Int -> Int
        foo a = + (+ a a) (+ 1 1)";
    let tokens = lexer::tokens(source).unwrap();
    let program = ast::build(tokens);
    assert!(program.is_ok());
}

#[test]
fn nested_parens_matched() {
    let source = "
        Int -> Int
        foo a = + (+ a (- 1 a)) (+ 1 1)";
    let tokens = lexer::tokens(source).unwrap();
    let program = ast::build(tokens);
    assert!(program.is_ok());
}

#[test]
fn missing_right_paren_detected() {
    let source = "
        Int -> Int
        foo a = + 1 (+ 1 1";
    let tokens = lexer::tokens(source).unwrap();
    let program = ast::build(tokens);
    assert!(matches!(program, Err(CompilerError::Parser(_, _))));
    assert!(program
        .unwrap_err()
        .to_string()
        .contains("expected closing parenthesis"));
}

#[test]
fn missing_left_paren_detected() {
    let source = "Int -> Int \nfoo a = + 1)";
    let tokens = lexer::tokens(source).unwrap();
    let program = ast::build(tokens);
    assert!(matches!(program, Err(CompilerError::Parser(_, _))));
}

fn parser_error(source: &str) -> (String, usize) {
    let tokens = lexer::tokens(source).unwrap();
    match ast::build(tokens) {
        Err(CompilerError::Parser(message, line)) => (message, line),
        other => panic!("expected a parser error, found {:?}", other),
    }
}

fn body(source: &str) -> Expression {
    let tokens = lexer::tokens(source).unwrap();
    let mut program = ast::build(tokens).unwrap();
    program.functions.remove(0).definition.body
}

fn list_elements(expression: Expression) -> (Type, Vec<Element>) {
    match expression {
        Expression::Value(Value::List(list)) => (list.list_type, list.elements),
        other => panic!("expected a list, found {:?}", other),
    }
}

fn integers(from: &[i64]) -> Vec<Element> {
    from.iter()
        .map(|n| Element::Value(Value::Integer(*n)))
        .collect()
}

#[test]
fn no_tokens_are_no_program() {
    let empty: Vec<Token> = Vec::new();
    assert_eq!(
        ast::build(empty).unwrap_err(),
        CompilerError::Parser("empty program".to_string(), 0)
    );
}

#[test]
fn blank_lines_alone_are_an_empty_program() {
    let tokens = lexer::tokens("\n\n;\n").unwrap();
    assert_eq!(ast::build(tokens).unwrap().functions.len(), 0);
}

#[test]
fn a_signature_holds_its_types_in_order() {
    let tokens = lexer::tokens("Int [Str] Bool -> [Frac]\nf a b c = 1").unwrap();
    let program = ast::build(tokens).unwrap();
    let signature = &program.functions[0].signature;
    assert_eq!(
        signature.parameters,
        vec![Type::Int, Type::List(Box::new(Type::Str)), Type::Bool]
    );
    assert_eq!(signature.returns, Type::List(Box::new(Type::Frac)));
}

#[test]
fn parameter_names_are_put_in_the_order_of_a_dictionary() {
    let tokens = lexer::tokens("Int Int Int -> Int\nf zeta alpha mid = 1").unwrap();
    let program = ast::build(tokens).unwrap();
    let names: Vec<String> = program.functions[0]
        .definition
        .parameters
        .iter()
        .map(|p| p.id.clone())
        .collect();
    assert_eq!(names, vec!["alpha", "mid", "zeta"]);
    assert_eq!(program.functions[0].definition.name.id, "f");
}

#[test]
fn a_duplicate_parameter_name_is_an_error() {
    assert_eq!(
        parser_error("Int Int -> Int\nf a a = 1"),
        ("duplicate parameter name `a`".to_string(), 2)
    );
}

#[test]
fn a_range_is_written_out_counting_up() {
    let (list_type, elements) = list_elements(body("-> [Int]\nmain = Int[1..3]"));
    assert_eq!(list_type, Type::Int);
    assert_eq!(elements, integers(&[1, 2, 3]));
}

#[test]
fn a_range_is_written_out_counting_down() {
    let (_, elements) = list_elements(body("-> [Int]\nmain = Int[5..1]"));
    assert_eq!(elements, integers(&[5, 4, 3, 2, 1]));
}

#[test]
fn a_range_of_one_number_has_one_element() {
    let (_, elements) = list_elements(body("-> [Int]\nmain = Int[4..4]"));
    assert_eq!(elements, integers(&[4]));
    assert_eq!(ast::expand_range(-1, 1), integers(&[-1, 0, 1]));
}

#[test]
fn a_range_is_for_lists_of_integers_only() {
    assert_eq!(
        parser_error("-> [Frac]\nmain = Frac[1..3]"),
        (
            "range syntax is only allowed for lists of integers".to_string(),
            2
        )
    );
    assert_eq!(
        parser_error("-> [Int]\nmain = Int[a..3]"),
        ("range start must be an integer".to_string(), 2)
    );
    assert_eq!(
        parser_error("-> [Int]\nmain = Int[1..b]"),
        ("expected integer after '..', found `b`".to_string(), 2)
    );
}

#[test]
fn a_list_holds_values_and_names() {
    let (list_type, elements) = list_elements(body("-> [Str]\nmain = Str[\"a\" b]"));
    assert_eq!(list_type, Type::Str);
    assert_eq!(
        elements,
        vec![
            Element::Value(Value::String("a".to_string())),
            Element::Identifier("b".to_string()),
        ]
    );
    let (_, none) = list_elements(body("-> [Int]\nmain = Int[]"));
    assert_eq!(none, vec![]);
}

#[test]
fn a_list_must_be_closed() {
    assert_eq!(
        parser_error("-> [Int]\nmain = Int[1 2"),
        ("expected `closing bracket`".to_string(), 0)
    );
    assert_eq!(
        parser_error("-> [Int]\nmain = Int 1"),
        ("expected `opening bracket`".to_string(), 0)
    );
}

#[test]
fn an_operation_takes_arguments_to_the_end_of_the_line() {
    match body("-> Int\nmain = + 1 x (- 2) Int[1]\n") {
        Expression::Call(Call::Operation(operation)) => {
            assert_eq!(operation.operator, Operator::Add);
            assert_eq!(operation.line, 2);
            assert_eq!(operation.arguments.len(), 4);
            assert!(matches!(
                operation.arguments[0],
                Argument::Value(Value::Integer(1))
            ));
            assert!(matches!(operation.arguments[1], Argument::Identifier(_)));
            assert!(matches!(
                operation.arguments[2],
                Argument::ParenExpression(_)
            ));
            assert!(matches!(
                operation.arguments[3],
                Argument::Value(Value::List(_))
            ));
        }
        other => panic!("expected an operation, found {:?}", other),
    }
}

#[test]
fn only_plus_and_minus_begin_an_argument() {
    match body("-> Int\nmain = + 1 - 2") {
        Expression::Call(Call::Operation(operation)) => {
            assert_eq!(operation.arguments.len(), 2);
            assert!(matches!(
                operation.arguments[1],
                Argument::ParenExpression(Expression::Call(Call::Operation(_)))
            ));
        }
        other => panic!("expected an operation, found {:?}", other),
    }
    assert_eq!(
        parser_error("-> Int\nmain = + 1 * 2"),
        ("unexpected token in function arguments: `*`".to_string(), 2)
    );
}

#[test]
fn a_pipe_follows_an_expression() {
    match body("-> [Int]\nmain = Int[1 2 3] >> double") {
        Expression::Call(Call::Pipe(pipe)) => {
            assert_eq!(pipe.right, "double");
            assert_eq!(pipe.line, 2);
            assert!(matches!(*pipe.left, Expression::Value(Value::List(_))));
        }
        other => panic!("expected a pipe, found {:?}", other),
    }
    assert_eq!(
        parser_error("-> Int\nmain = 1 >> 2"),
        ("expected identifier after pipe, found `2`".to_string(), 0)
    );
}

#[test]
fn a_conditional_may_break_its_lines() {
    match body("-> Int\nmain = if < 1 2\n then 3\n else 4") {
        Expression::Conditional(conditional) => {
            assert_eq!(conditional.line, 2);
            assert!(matches!(
                *conditional.condition,
                Expression::Call(Call::Operation(_))
            ));
            assert!(matches!(
                *conditional.otherwise,
                Expression::Value(Value::Integer(4))
            ));
        }
        other => panic!("expected a conditional, found {:?}", other),
    }
}

#[test]
fn a_conditional_needs_both_branches() {
    assert_eq!(
        parser_error("-> Int\nmain = if true 3"),
        ("expected `then`".to_string(), 2)
    );
    assert_eq!(
        parser_error("-> Int\nmain = if true then 3"),
        ("expected `else`".to_string(), 0)
    );
}

#[test]
fn a_signature_must_be_well_formed() {
    assert_eq!(
        parser_error("Int = Int\nf a = 1"),
        (
            "unexpected token in function signature: `=`".to_string(),
            1
        )
    );
    assert_eq!(
        parser_error("[Int -> Int\nf a = 1"),
        (
            "expected closing bracket in function signature parameters".to_string(),
            1
        )
    );
    assert_eq!(
        parser_error("[ -> Int\nf a = 1"),
        (
            "expected type in list parameter in function signature".to_string(),
            1
        )
    );
    assert_eq!(
        parser_error("Int -> x\nf a = 1"),
        ("expected return type in function signature".to_string(), 2)
    );
    assert_eq!(
        parser_error("Int -> [Int\nf a = 1"),
        (
            "expected closing bracket in function return type".to_string(),
            1
        )
    );
    assert_eq!(
        parser_error("Int -> [x]\nf a = 1"),
        (
            "expected type in list parameter in function signature return type".to_string(),
            1
        )
    );
    assert_eq!(
        parser_error("Int -> Int f"),
        (
            "expected function definition after signature".to_string(),
            0
        )
    );
}

#[test]
fn a_definition_must_be_well_formed() {
    assert_eq!(
        parser_error("Int -> Int\n\nf a = 1"),
        (
            "expected definition name, found empty line".to_string(),
            2
        )
    );
    assert_eq!(
        parser_error("Int -> Int\n\n"),
        (
            "expected definition name, found empty line".to_string(),
            0
        )
    );
    assert_eq!(
        parser_error("Int -> Int\n1 a = 1"),
        ("expected definition name, found `1`".to_string(), 2)
    );
    assert_eq!(
        parser_error("Int -> Int\nf 1 = 1"),
        (
            "expected identifier in definition parameters".to_string(),
            2
        )
    );
    assert_eq!(
        parser_error("Int -> Int\nf a = )"),
        ("expected expression, found )".to_string(), 2)
    );
}
