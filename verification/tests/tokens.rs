use lemma::grammar::{Element, List};
use lemma::parser::Parser;
use lemma::tokens::{Conditional, Operator, OperatorType, Symbol, Token, Type, Value};

#[test]
fn operators_belong_to_classes() {
    for operator in [Operator::Add, Operator::Sub, Operator::Mul, Operator::Div] {
        assert_eq!(operator.operator_type(), OperatorType::Binary);
    }
    for operator in [Operator::Gt, Operator::Lt, Operator::Gte, Operator::Lte] {
        assert_eq!(operator.operator_type(), OperatorType::Relational);
    }
    for operator in [Operator::Eq, Operator::Neq, Operator::And, Operator::Or] {
        assert_eq!(operator.operator_type(), OperatorType::Logical);
    }
    assert_eq!(Operator::Not.operator_type(), OperatorType::Unary);
}

#[test]
fn classes_say_how_many_arguments_they_take() {
    assert_eq!(OperatorType::Unary.arity(), "exactly 1 argument");
    assert_eq!(OperatorType::Binary.arity(), "at least 2 argument");
    assert_eq!(OperatorType::Relational.arity(), "exactly 2 arguments");
    assert_eq!(OperatorType::Logical.arity(), "exactly 2 arguments");
}

#[test]
fn tokens_are_written_as_in_the_source() {
    assert_eq!(Symbol::Return.to_string(), "->");
    assert_eq!(Symbol::Pipe.to_string(), ">>");
    assert_eq!(Symbol::Range.to_string(), "..");
    assert_eq!(Symbol::EOL.to_string(), "\n");
    assert_eq!(Symbol::EOF.to_string(), "");
    assert_eq!(Symbol::Comment.to_string(), "#");
    assert_eq!(Operator::Gte.to_string(), ">=");
    assert_eq!(Operator::And.to_string(), "&&");
    assert_eq!(Operator::Not.to_string(), "!");
    assert_eq!(Conditional::Then.to_string(), "then");
    assert_eq!(Type::Void.to_string(), "Void");
    assert_eq!(
        Type::List(Box::new(Type::List(Box::new(Type::Frac)))).to_string(),
        "[[Frac]]"
    );
    assert_eq!(Token::Identifier("add-one".to_string(), 4).to_string(), "add-one");
    assert_eq!(Token::Value(Value::Integer(-3), 1).to_string(), "-3");
    assert_eq!(Token::Type(Type::Bool, 1).to_string(), "Bool");
}

#[test]
fn fractional_numbers_are_shown_with_a_point() {
    assert_eq!(Value::Fractional("2.5".to_string()).to_string(), "2.5");
    assert_eq!(Value::Fractional("3".to_string()).to_string(), "3.0");
    assert_eq!(Value::Fractional("-0".to_string()).to_string(), "-0.0");
}

#[test]
fn lists_are_shown_between_brackets() {
    let list = Value::List(List {
        list_type: Type::Str,
        elements: vec![
            Element::Value(Value::String("a".to_string())),
            Element::Identifier("b".to_string()),
            Element::Value(Value::List(List {
                list_type: Type::Int,
                elements: vec![Element::Value(Value::Integer(1))],
                line: 1,
            })),
        ],
        line: 1,
    });
    assert_eq!(list.to_string(), "[a, b, [1]]");
    assert_eq!(list.clone(), list);
    assert_eq!(list.get_type(), Type::List(Box::new(Type::Str)));
}

#[test]
fn values_have_types() {
    assert_eq!(Value::Integer(1).get_type(), Type::Int);
    assert_eq!(Value::Fractional("1.0".to_string()).get_type(), Type::Frac);
    assert_eq!(Value::String("s".to_string()).get_type(), Type::Str);
    assert_eq!(Value::Boolean(true).get_type(), Type::Bool);
}

#[test]
fn types_are_compared_and_copied() {
    let nested = Type::List(Box::new(Type::Int));
    assert!(nested.same(&Type::List(Box::new(Type::Int))));
    assert!(!nested.same(&Type::List(Box::new(Type::Frac))));
    assert!(!nested.same(&Type::Int));
    assert!(Type::Void.same(&Type::Void));
    assert_eq!(nested.copy(), nested);
    assert_eq!(nested.clone(), nested);
}

fn some_tokens() -> Vec<Token> {
    vec![
        Token::Identifier("a".to_string(), 1),
        Token::Identifier("b".to_string(), 1),
        Token::Symbol(Symbol::EOL, 2),
        Token::Value(Value::Integer(1), 2),
    ]
}

#[test]
fn a_cursor_shows_and_takes_tokens() {
    let mut parser = Parser::new(some_tokens());
    assert_eq!(parser.location(), 1);
    assert_eq!(parser.peek(), &Token::Identifier("a".to_string(), 1));
    assert_eq!(parser.advance(), &Token::Identifier("a".to_string(), 1));
    assert_eq!(parser.advance(), &Token::Identifier("b".to_string(), 1));
    assert_eq!(parser.location(), 2);
    assert!(parser.has_more());
    parser.advance();
    assert_eq!(parser.advance(), &Token::Value(Value::Integer(1), 2));
    assert!(!parser.has_more());
    assert_eq!(parser.peek(), &Token::Symbol(Symbol::EOF, 0));
    assert_eq!(parser.advance(), &Token::Symbol(Symbol::EOF, 0));
    assert_eq!(parser.location(), 0);
}

#[test]
fn a_cursor_takes_tokens_while_a_condition_holds() {
    let mut parser = Parser::new(some_tokens());
    let names = parser.advance_while(|t| matches!(t, Token::Identifier(_, _)));
    assert_eq!(
        names,
        vec![
            Token::Identifier("a".to_string(), 1),
            Token::Identifier("b".to_string(), 1),
        ]
    );
    assert_eq!(parser.peek(), &Token::Symbol(Symbol::EOL, 2));
    let rest = parser.advance_while(|_| true);
    assert_eq!(rest.len(), 2);
    assert!(!parser.has_more());
    assert_eq!(parser.advance_while(|_| true), vec![]);
}

#[test]
fn names_are_ordered_as_in_a_dictionary() {
    assert!(lemma::ast::text_less("a", "b"));
    assert!(lemma::ast::text_less("a", "ab"));
    assert!(lemma::ast::text_less("", "a"));
    assert!(lemma::ast::text_less("Z", "a"));
    assert!(!lemma::ast::text_less("b", "a"));
    assert!(!lemma::ast::text_less("a", "a"));
    assert!(!lemma::ast::text_less("ab", "a"));
    assert!(!lemma::ast::text_less("", ""));
}

#[test]
fn numerals_are_read() {
    assert_eq!(lemma::lexer::parse_integer("0"), Some(0));
    assert_eq!(lemma::lexer::parse_integer("0042"), Some(42));
    assert_eq!(lemma::lexer::parse_integer(""), Some(0));
    assert_eq!(
        lemma::lexer::parse_integer("9223372036854775807"),
        Some(i64::MAX)
    );
    assert_eq!(lemma::lexer::parse_integer("9223372036854775808"), None);
    assert_eq!(lemma::lexer::parse_integer("99999999999999999999999"), None);
    assert_eq!(lemma::lexer::strip_string("\"abc\""), "abc");
    assert_eq!(lemma::lexer::strip_string("\"\""), "");
    assert_eq!(lemma::lexer::strip_string("x"), "");
    assert_eq!(lemma::lexer::strip_string(""), "");
}

#[test]
fn the_second_argument_is_the_path() {
    let args = vec!["lemma".to_string(), "a.lm".to_string(), "more".to_string()];
    assert_eq!(lemma::args::Args::build(args).unwrap().file_path, "a.lm");
    assert_eq!(
        lemma::args::Args::build(vec!["lemma".to_string()]).unwrap_err(),
        lemma::errors::ApplicationError::Args("no file provided".to_string())
    );
    assert_eq!(
        lemma::args::Args::build(vec![]).unwrap_err().to_string(),
        "Invalid program arguments: no file provided"
    );
}
