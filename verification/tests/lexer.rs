use lemma::{
    errors::CompilerError,
    lexer,
    tokens::{Conditional, Operator, Symbol, Token, Type, Value},
};

#[test]
fn signature_lexed() {
    let source = "Int -> Str";
    let tokens = lexer::tokens(source);
    let expected = vec![
        Token::Type(Type::Int, 1),
        Token::Symbol(Symbol::Return, 1),
        Token::Type(Type::Str, 1),
    ];
    assert_eq!(expected, tokens.unwrap());
}

#[test]
fn invalid_character_detected() {
    let source = "Int @";
    let tokens = lexer::tokens(source);
    assert!(matches!(tokens, Err(CompilerError::Lexer(_, _))));
}

#[test]
fn valid_characters_accepted() {
    let source = "a 42 \"a\" 3.1 true";
    let tokens = lexer::tokens(source);
    assert!(tokens.is_ok());
    let expected = vec![
        Token::Identifier("a".to_string(), 1),
        Token::Value(Value::Integer(42), 1),
        Token::Value(Value::String("a".to_string()), 1),
        Token::Value(Value::Fractional("3.1".to_string()), 1),
        Token::Value(Value::Boolean(true), 1),
    ];
    assert_eq!(expected, tokens.unwrap());
}

#[test]
fn whitespace_ignored() {
    let source = "  Int  ->  Int  ";
    let tokens = lexer::tokens(source);
    let expected = vec![
        Token::Type(Type::Int, 1),
        Token::Symbol(Symbol::Return, 1),
        Token::Type(Type::Int, 1),
    ];
    assert_eq!(expected, tokens.unwrap());
}

#[test]
fn print_program_from_tokens() {
    let tokens = vec![
        Token::Type(Type::Int, 1),
        Token::Symbol(Symbol::Return, 1),
        Token::Type(Type::Int, 1),
        Token::Symbol(Symbol::EOL, 1),
        Token::Identifier("add".to_string(), 2),
        Token::Identifier("a".to_string(), 2),
        Token::Symbol(Symbol::Assign, 2),
        Token::Operator(Operator::Add, 2),
        Token::Identifier("a".to_string(), 2),
        Token::Value(Value::Integer(1), 2),
        Token::Symbol(Symbol::EOL, 2),
    ];

    let tokens: Vec<String> = tokens.into_iter().map(|t| t.into()).collect();
    let program = tokens.join(" ").replace(" \n ", "\n");
    let str = "Int -> Int\nadd a = + a 1";
    assert_eq!(str, program.trim());
}

fn lexed(source: &str) -> Vec<Token> {
    lexer::tokens(source).unwrap()
}

fn lexer_error(source: &str) -> (String, usize) {
    match lexer::tokens(source) {
        Err(CompilerError::Lexer(message, line)) => (message, line),
        other => panic!("expected a lexer error, found {:?}", other),
    }
}

#[test]
fn single_character_tokens() {
    assert_eq!(
        lexed("( ) [ ] + * /"),
        vec![
            Token::Symbol(Symbol::LP, 1),
            Token::Symbol(Symbol::RP, 1),
            Token::Symbol(Symbol::LB, 1),
            Token::Symbol(Symbol::RB, 1),
            Token::Operator(Operator::Add, 1),
            Token::Operator(Operator::Mul, 1),
            Token::Operator(Operator::Div, 1),
        ]
    );
}

#[test]
fn two_character_tokens_are_told_apart() {
    assert_eq!(
        lexed(">> >= > <= < -> - == = && || | != ! .."),
        vec![
            Token::Symbol(Symbol::Pipe, 1),
            Token::Operator(Operator::Gte, 1),
            Token::Operator(Operator::Gt, 1),
            Token::Operator(Operator::Lte, 1),
            Token::Operator(Operator::Lt, 1),
            Token::Symbol(Symbol::Return, 1),
            Token::Operator(Operator::Sub, 1),
            Token::Operator(Operator::Eq, 1),
            Token::Symbol(Symbol::Assign, 1),
            Token::Operator(Operator::And, 1),
            Token::Operator(Operator::Or, 1),
            Token::Symbol(Symbol::Bar, 1),
            Token::Operator(Operator::Neq, 1),
            Token::Operator(Operator::Not, 1),
            Token::Symbol(Symbol::Range, 1),
        ]
    );
}

#[test]
fn a_lone_ampersand_or_point_is_an_error() {
    assert_eq!(lexer_error("a & b"), ("invalid token `&`".to_string(), 1));
    assert_eq!(lexer_error("\n\na . b"), ("invalid token `.`".to_string(), 3));
}

#[test]
fn an_invalid_character_is_named() {
    assert_eq!(lexer_error("Int @"), ("invalid character `@`".to_string(), 1));
    assert_eq!(lexer_error("a\nb\n1, 2"), ("invalid character `,`".to_string(), 3));
}

#[test]
fn every_line_end_makes_one_token_on_the_next_line() {
    assert_eq!(
        lexed("a\nb;c\r\nd\re"),
        vec![
            Token::Identifier("a".to_string(), 1),
            Token::Symbol(Symbol::EOL, 2),
            Token::Identifier("b".to_string(), 2),
            Token::Symbol(Symbol::EOL, 2),
            Token::Identifier("c".to_string(), 2),
            Token::Symbol(Symbol::EOL, 3),
            Token::Identifier("d".to_string(), 3),
            Token::Symbol(Symbol::EOL, 3),
            Token::Identifier("e".to_string(), 3),
        ]
    );
}

#[test]
fn a_comment_runs_through_its_line() {
    assert_eq!(
        lexed("a # b c \" &\nd"),
        vec![
            Token::Identifier("a".to_string(), 1),
            Token::Identifier("d".to_string(), 2),
        ]
    );
    assert_eq!(lexed("# only a comment"), vec![]);
}

#[test]
fn a_fractional_literal_needs_digits_behind_the_point() {
    assert_eq!(
        lexed("12.50"),
        vec![Token::Value(Value::Fractional("12.50".to_string()), 1)]
    );
    assert_eq!(
        lexed("1..3"),
        vec![
            Token::Value(Value::Integer(1), 1),
            Token::Symbol(Symbol::Range, 1),
            Token::Value(Value::Integer(3), 1),
        ]
    );
    assert_eq!(lexer_error("12. 5"), ("invalid token `.`".to_string(), 1));
}

#[test]
fn an_integer_literal_must_fit() {
    assert_eq!(
        lexed("9223372036854775807 007"),
        vec![
            Token::Value(Value::Integer(i64::MAX), 1),
            Token::Value(Value::Integer(7), 1),
        ]
    );
    assert_eq!(
        lexer_error("9223372036854775808"),
        ("could not parse numeric `9223372036854775808`".to_string(), 1)
    );
}

#[test]
fn a_string_runs_through_the_next_quote() {
    assert_eq!(
        lexed("\"a b\")\"\""),
        vec![
            Token::Value(Value::String("a b".to_string()), 1),
            Token::Symbol(Symbol::RP, 1),
            Token::Value(Value::String("".to_string()), 1),
        ]
    );
    assert_eq!(
        lexed("\"a\nb\" c"),
        vec![
            Token::Value(Value::String("a\nb".to_string()), 2),
            Token::Identifier("c".to_string(), 2),
        ]
    );
    assert_eq!(lexer_error("x \"abc\nd"), ("unterminated string".to_string(), 2));
}

#[test]
fn words_are_classified_in_order() {
    assert_eq!(
        lexed("true false if then else Int Frac Str Bool Void add-one x1 truex"),
        vec![
            Token::Value(Value::Boolean(true), 1),
            Token::Value(Value::Boolean(false), 1),
            Token::Conditional(Conditional::If, 1),
            Token::Conditional(Conditional::Then, 1),
            Token::Conditional(Conditional::Else, 1),
            Token::Type(Type::Int, 1),
            Token::Type(Type::Frac, 1),
            Token::Type(Type::Str, 1),
            Token::Type(Type::Bool, 1),
            Token::Type(Type::Void, 1),
            Token::Identifier("add-one".to_string(), 1),
            Token::Identifier("x1".to_string(), 1),
            Token::Identifier("truex".to_string(), 1),
        ]
    );
}

#[test]
fn the_empty_text_has_no_tokens() {
    assert_eq!(lexed(""), vec![]);
}
