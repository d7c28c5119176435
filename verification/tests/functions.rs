use lemma::interpreter::fractions::Fractions;
use lemma::{ast, interpreter, lexer, tokens::Value::Integer};

#[test]
fn remainder_function() {
    let source = "-> Void
                        main = rem 10 7

                        Int Int -> Int
                        rem a b = - a (* b (/ a b))";

    let tokens = lexer::tokens(&source).unwrap();
    let program = ast::build(tokens).unwrap();

    let output = interpreter::evaluate(program, &Fractions::new())
        .unwrap()
        .unwrap();

    assert_eq!(output, Integer(3));
}
