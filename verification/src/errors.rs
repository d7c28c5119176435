//! What can go wrong: every failure of the pipeline carries a message and a
//! source line.

use crate::text::{nat_text, push_usize};
use crate::tokens::{arity_text, class_of, operator_text, type_text, Identifier, Operator, Type};
use vstd::prelude::*;
use vstd::string::*;

verus! {

/// A failure of the program around the pipeline.
#[derive(PartialEq, Debug)]
pub enum ApplicationError {
    Args(String),
}

/// A failure of one phase: its message and the line it speaks of. An
/// interpreter error with line 0 speaks of no line in particular.
#[derive(PartialEq, Debug)]
pub enum CompilerError {
    Lexer(String, usize),
    Parser(String, usize),
    Interpreter(String, usize),
}

/// The mathematical content of a `CompilerError`.
pub enum ErrorView {
    Lexer(Seq<char>, usize),
    Parser(Seq<char>, usize),
    Interpreter(Seq<char>, usize),
}

impl View for CompilerError {
    type V = ErrorView;

    open spec fn view(&self) -> ErrorView {
        match self {
            CompilerError::Lexer(m, line) => ErrorView::Lexer(m@, *line),
            CompilerError::Parser(m, line) => ErrorView::Parser(m@, *line),
            CompilerError::Interpreter(m, line) => ErrorView::Interpreter(m@, *line),
        }
    }
}

/// How an error is reported: the phase, the message and, where there is one,
/// the line.
pub open spec fn error_text(e: ErrorView) -> Seq<char> {
    match e {
        ErrorView::Lexer(m, line) => "Lexer error: "@ + m + " (line "@ + nat_text(line as nat)
            + ")"@,
        ErrorView::Parser(m, line) => "Parser error: "@ + m + " (line "@ + nat_text(line as nat)
            + ")"@,
        ErrorView::Interpreter(m, line) => if line > 0 {
            "Interpreter error: "@ + m + " (line "@ + nat_text(line as nat) + ")"@
        } else {
            "Interpreter error: "@ + m
        },
    }
}

/// The message that one type was expected and another found.
pub open spec fn unexpected_type_message(expected: Seq<char>, observed: Type) -> Seq<char> {
    "expected "@ + expected + ", found "@ + type_text(observed)
}

/// The message that a name means nothing.
pub open spec fn undefined_variable_message(identifier: Seq<char>) -> Seq<char> {
    "undefined variable `"@ + identifier + "`"@
}

/// The message that a parameter was given no argument.
pub open spec fn undefined_argument_message(identifier: Seq<char>) -> Seq<char> {
    "no argument passed for `"@ + identifier + "`"@
}

/// The message that something else was expected.
pub open spec fn unexpected_token_message(token: Seq<char>) -> Seq<char> {
    "expected `"@ + token + "`"@
}

/// The message that an operator was given the wrong number of arguments.
pub open spec fn wrong_operator_arity_message(operator: Operator) -> Seq<char> {
    "operator `"@ + operator_text(operator) + "` expects "@ + arity_text(class_of(operator))
}

impl ApplicationError {
    /// How this error is reported.
    pub fn to_string(&self) -> (text: String)
        ensures
            text@ == "Invalid program arguments: "@ + self->Args_0@,
    {
        match self {
            ApplicationError::Args(e) => {
                let mut out = String::from_str("Invalid program arguments: ");
                out.append(e.as_str());
                out
            },
        }
    }
}

impl CompilerError {
    /// The line this error speaks of.
    pub fn line(&self) -> (line: usize)
        ensures
            line == match self@ {
                ErrorView::Lexer(_, l) => l,
                ErrorView::Parser(_, l) => l,
                ErrorView::Interpreter(_, l) => l,
            },
    {
        match self {
            CompilerError::Lexer(_, line) => *line,
            CompilerError::Parser(_, line) => *line,
            CompilerError::Interpreter(_, line) => *line,
        }
    }

    /// How this error is reported.
    pub fn to_string(&self) -> (text: String)
        ensures
            text@ == error_text(self@),
    {
        let mut out = String::new();
        match self {
            CompilerError::Lexer(e, line) => {
                out.append("Lexer error: ");
                out.append(e.as_str());
                out.append(" (line ");
                push_usize(&mut out, *line);
                out.append(")");
            },
            CompilerError::Parser(e, line) => {
                out.append("Parser error: ");
                out.append(e.as_str());
                out.append(" (line ");
                push_usize(&mut out, *line);
                out.append(")");
            },
            CompilerError::Interpreter(e, line) => {
                out.append("Interpreter error: ");
                out.append(e.as_str());
                if *line > 0 {
                    out.append(" (line ");
                    push_usize(&mut out, *line);
                    out.append(")");
                }
            },
        }
        assert(out@ =~= error_text(self@));
        out
    }
}

/// The error that a value of type `expected` was expected and one of type
/// `observed` found.
pub fn unexpected_type(expected: &Type, observed: &Type, line: usize) -> (e: CompilerError)
    ensures
        e@ == ErrorView::Interpreter(
            unexpected_type_message(type_text(*expected), *observed),
            line,
        ),
{
    let mut out = String::from_str("expected ");
    expected.write(&mut out);
    out.append(", found ");
    observed.write(&mut out);
    CompilerError::Interpreter(out, line)
}

/// The error that a value of the class `expected` was expected and one of
/// type `observed` found.
pub fn unexpected_type_class(expected: &str, observed: &Type, line: usize) -> (e: CompilerError)
    ensures
        e@ == ErrorView::Interpreter(unexpected_type_message(expected@, *observed), line),
{
    let mut out = String::from_str("expected ");
    out.append(expected);
    out.append(", found ");
    observed.write(&mut out);
    CompilerError::Interpreter(out, line)
}

/// The error that `identifier` means nothing.
pub fn undefined_variable(identifier: &Identifier, line: usize) -> (e: CompilerError)
    ensures
        e@ == ErrorView::Interpreter(undefined_variable_message(identifier@), line),
{
    let mut out = String::from_str("undefined variable `");
    out.append(identifier.as_str());
    out.append("`");
    CompilerError::Interpreter(out, line)
}

/// The error that the parameter `identifier` was given no argument.
pub fn undefined_argument(identifier: &Identifier, line: usize) -> (e: CompilerError)
    ensures
        e@ == ErrorView::Interpreter(undefined_argument_message(identifier@), line),
{
    let mut out = String::from_str("no argument passed for `");
    out.append(identifier.as_str());
    out.append("`");
    CompilerError::Interpreter(out, line)
}

/// The error that `token` was expected.
pub fn unexpected_token(token: &str, line: usize) -> (e: CompilerError)
    ensures
        e@ == ErrorView::Interpreter(unexpected_token_message(token@), line),
{
    let mut out = String::from_str("expected `");
    out.append(token);
    out.append("`");
    CompilerError::Interpreter(out, line)
}

/// The error that `operator` was given the wrong number of arguments.
pub fn wrong_operator_arity(operator: &Operator, line: usize) -> (e: CompilerError)
    ensures
        e@ == ErrorView::Interpreter(wrong_operator_arity_message(*operator), line),
{
    let mut out = String::from_str("operator `");
    let written = operator.to_string();
    out.append(written.as_str());
    out.append("` expects ");
    let words = operator.operator_type().arity();
    out.append(words.as_str());
    CompilerError::Interpreter(out, line)
}

} // verus!
