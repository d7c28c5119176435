//! The builder of syntax trees: from tokens to a program, by recursive
//! descent.
//!
//! `parse` says, as a function of the tokens alone, which program they write or
//! which error stops the builder; `build` computes it. The grammar is
//! line-sensitive: a signature ends with its line, an argument list ends at a
//! closing parenthesis, a pipe, the end of the line, `then`, `else` or the end
//! of input.

use crate::errors::{unexpected_token_message, CompilerError, ErrorView};
use crate::grammar::{
    arguments_view, elements_view, Argument, ArgumentView, Call, Conditional, Definition,
    DefinitionView, Element, ElementView, Expression, ExpressionView, Function, FunctionCall,
    FunctionView, List, ListView, Operation, Pipe, Program, Signature, SignatureView,
};
use crate::parser::{after, has_more, is_symbol, location, token_at, Parser};
use crate::tokens;
use crate::tokens::{
    token_text, views, LocatedIdentifier, NameView, Operator, Symbol, Token, TokenView, Type, Value,
    ValueView,
};
use vstd::prelude::*;
use vstd::string::*;

verus! {

/// What a rule of the grammar yields at a position: what it built and where
/// the next rule begins, or the error that stops the builder.
pub type Parsed<T> = Result<(T, nat), ErrorView>;

/// How many tokens are left at `pos`.
pub open spec fn left(tokens: Seq<TokenView>, pos: nat) -> nat {
    if pos <= tokens.len() {
        (tokens.len() - pos) as nat
    } else {
        0
    }
}

/// A parser error whose message names a token between two fixed parts.
pub open spec fn found_error(
    before: Seq<char>,
    token: TokenView,
    behind: Seq<char>,
    line: usize,
) -> ErrorView {
    ErrorView::Parser(before + token_text(token) + behind, line)
}

/// A parser error that names what was expected.
pub open spec fn expected_error(what: Seq<char>, line: usize) -> ErrorView {
    ErrorView::Parser(unexpected_token_message(what), line)
}

/// Whether `a` comes before `b` in the order of a dictionary, from the
/// character at `i` on, the characters before it being the same.
pub open spec fn text_lt_from(a: Seq<char>, b: Seq<char>, i: nat) -> bool
    decreases a.len() - i,
{
    if i >= b.len() {
        false
    } else if i >= a.len() {
        true
    } else if a[i as int] != b[i as int] {
        a[i as int] < b[i as int]
    } else {
        text_lt_from(a, b, i + 1)
    }
}

/// Whether `a` comes before `b` in the order of a dictionary.
pub open spec fn text_lt(a: Seq<char>, b: Seq<char>) -> bool {
    text_lt_from(a, b, 0)
}

/// Whether a name is among `names`.
pub open spec fn has_name(names: Seq<NameView>, id: Seq<char>) -> bool {
    exists|i: int| 0 <= i < names.len() && #[trigger] names[i].id == id
}

/// The first place from `i` on whose name comes after `id`, or the end.
pub open spec fn slot_from(names: Seq<NameView>, id: Seq<char>, i: nat) -> nat
    decreases names.len() - i,
{
    if i >= names.len() {
        names.len()
    } else if text_lt(id, names[i as int].id) {
        i
    } else {
        slot_from(names, id, i + 1)
    }
}

/// `names` with `name` put before the first name that comes after it.
pub open spec fn with_name(names: Seq<NameView>, name: NameView) -> Seq<NameView> {
    names.insert(slot_from(names, name.id, 0) as int, name)
}

/// Names in the strict order of a dictionary.
pub open spec fn names_sorted(names: Seq<NameView>) -> bool {
    forall|i: int, j: int|
        0 <= i < j < names.len() ==> text_lt(#[trigger] names[i].id, #[trigger] names[j].id)
}

/// The parameter types of a signature, up to its arrow.
pub open spec fn parameter_types_at(
    tokens: Seq<TokenView>,
    pos: nat,
    line: usize,
    found: Seq<Type>,
) -> Parsed<Seq<Type>>
    decreases left(tokens, pos),
{
    if is_symbol(tokens, pos, Symbol::Return) {
        Ok((found, pos))
    } else {
        match token_at(tokens, pos) {
            TokenView::Type(t, _) => parameter_types_at(tokens, pos + 1, line, found.push(t)),
            TokenView::Symbol(Symbol::LB, _) => match token_at(tokens, pos + 1) {
                TokenView::Type(t, _) => if is_symbol(tokens, pos + 2, Symbol::RB) {
                    parameter_types_at(tokens, pos + 3, line, found.push(Type::List(Box::new(t))))
                } else {
                    Err(
                        ErrorView::Parser(
                            "expected closing bracket in function signature parameters"@,
                            line,
                        ),
                    )
                },
                _ => Err(
                    ErrorView::Parser(
                        "expected type in list parameter in function signature"@,
                        line,
                    ),
                ),
            },
            other => Err(found_error("unexpected token in function signature: `"@, other, "`"@, line)),
        }
    }
}

/// The return type of a signature, after its arrow.
pub open spec fn return_type_at(tokens: Seq<TokenView>, pos: nat, line: usize) -> Parsed<Type> {
    match token_at(tokens, pos) {
        TokenView::Type(t, _) => Ok((t, pos + 1)),
        TokenView::Symbol(Symbol::LB, _) => match token_at(tokens, pos + 1) {
            TokenView::Type(t, _) => if is_symbol(tokens, pos + 2, Symbol::RB) {
                Ok((Type::List(Box::new(t)), pos + 3))
            } else {
                Err(ErrorView::Parser("expected closing bracket in function return type"@, line))
            },
            _ => Err(
                ErrorView::Parser(
                    "expected type in list parameter in function signature return type"@,
                    location(tokens, after(tokens, pos + 1)),
                ),
            ),
        },
        _ => Err(
            ErrorView::Parser(
                "expected return type in function signature"@,
                location(tokens, after(tokens, pos)),
            ),
        ),
    }
}

/// A signature: parameter types, an arrow, a return type and the end of the
/// line.
pub open spec fn signature_at(tokens: Seq<TokenView>, pos: nat) -> Parsed<SignatureView> {
    let line = location(tokens, pos);
    match parameter_types_at(tokens, pos, line, Seq::empty()) {
        Err(e) => Err(e),
        Ok((parameters, arrow)) => match return_type_at(tokens, arrow + 1, line) {
            Err(e) => Err(e),
            Ok((return_type, end)) => if is_symbol(tokens, end, Symbol::EOL) {
                Ok((SignatureView { parameters, returns: return_type }, end + 1))
            } else {
                Err(
                    ErrorView::Parser(
                        "expected function definition after signature"@,
                        location(tokens, after(tokens, end)),
                    ),
                )
            },
        },
    }
}

/// The parameter names of a definition, through its `=`. Each name bears the
/// line of the token behind it; the names come out in the order of a
/// dictionary.
pub open spec fn params_at(tokens: Seq<TokenView>, pos: nat, found: Seq<NameView>) -> Parsed<
    Seq<NameView>,
>
    decreases left(tokens, pos),
{
    if is_symbol(tokens, pos, Symbol::Assign) {
        Ok((found, pos + 1))
    } else {
        match token_at(tokens, pos) {
            TokenView::Identifier(id, _) => {
                let line = location(tokens, pos + 1);
                if has_name(found, id) {
                    Err(ErrorView::Parser("duplicate parameter name `"@ + id + "`"@, line))
                } else {
                    params_at(tokens, pos + 1, with_name(found, NameView { id, line }))
                }
            },
            _ => Err(
                ErrorView::Parser(
                    "expected identifier in definition parameters"@,
                    location(tokens, after(tokens, pos)),
                ),
            ),
        }
    }
}

/// The line before `line`; before line 0 there is none.
pub open spec fn line_before(line: usize) -> usize {
    if line > 0 {
        (line - 1) as usize
    } else {
        0
    }
}

/// A definition: a name, parameter names, `=` and a body.
pub open spec fn definition_at(tokens: Seq<TokenView>, pos: nat) -> Parsed<DefinitionView> {
    match token_at(tokens, pos) {
        TokenView::Identifier(id, _) => {
            let line = location(tokens, pos + 1);
            match params_at(tokens, pos + 1, Seq::empty()) {
                Err(e) => Err(e),
                Ok((parameters, at)) => match expression_at(tokens, at) {
                    Err(e) => Err(e),
                    Ok((body, next)) => Ok(
                        (DefinitionView { name: NameView { id, line }, parameters, body }, next),
                    ),
                },
            }
        },
        TokenView::Symbol(Symbol::EOL, _) => Err(
            ErrorView::Parser(
                "expected definition name, found empty line"@,
                line_before(location(tokens, pos + 1)),
            ),
        ),
        other => Err(
            found_error(
                "expected definition name, found `"@,
                other,
                "`"@,
                location(tokens, after(tokens, pos)),
            ),
        ),
    }
}

/// A function: a signature and, on the next line, a definition.
pub open spec fn function_at(tokens: Seq<TokenView>, pos: nat) -> Parsed<FunctionView> {
    match signature_at(tokens, pos) {
        Err(e) => Err(e),
        Ok((signature, at)) => match definition_at(tokens, at) {
            Err(e) => Err(e),
            Ok((definition, next)) => Ok((FunctionView { signature, definition }, next)),
        },
    }
}

/// The integers from `start` to `end`, both included, counting up or down.
pub open spec fn range(start: int, end: int) -> Seq<int> {
    if start <= end {
        Seq::new((end - start + 1) as nat, |i: int| start + i)
    } else {
        Seq::new((start - end + 1) as nat, |i: int| start - i)
    }
}

/// The elements that a range writes.
pub open spec fn range_elements(start: i64, end: i64) -> Seq<ElementView> {
    Seq::new(
        range(start as int, end as int).len(),
        |i: int| ElementView::Value(ValueView::Integer(range(start as int, end as int)[i] as i64)),
    )
}

/// The elements of a list after its first, up to the closing bracket.
pub open spec fn elements_at(tokens: Seq<TokenView>, pos: nat, found: Seq<ElementView>) -> Parsed<
    Seq<ElementView>,
>
    decreases left(tokens, pos),
{
    if is_symbol(tokens, pos, Symbol::RB) {
        Ok((found, pos))
    } else {
        match token_at(tokens, pos) {
            TokenView::Value(v, _) => elements_at(
                tokens,
                pos + 1,
                found.push(ElementView::Value(v)),
            ),
            TokenView::Identifier(id, _) => elements_at(
                tokens,
                pos + 1,
                found.push(ElementView::Identifier(id)),
            ),
            TokenView::Symbol(Symbol::EOF, _) => Err(
                expected_error("closing bracket"@, location(tokens, after(tokens, pos))),
            ),
            other => Err(
                found_error(
                    "unexpected token in list: `"@,
                    other,
                    "`"@,
                    location(tokens, after(tokens, pos)),
                ),
            ),
        }
    }
}

/// The closing bracket of a list, after its elements.
pub open spec fn closing_at(tokens: Seq<TokenView>, pos: nat, elements: Seq<ElementView>) -> Parsed<
    Seq<ElementView>,
> {
    if is_symbol(tokens, pos, Symbol::RB) {
        Ok((elements, pos + 1))
    } else {
        Err(expected_error("closing bracket"@, location(tokens, after(tokens, pos))))
    }
}

/// What stands between the brackets of a list that is not empty: a range of
/// integers, which is written out at once, or one element after another.
pub open spec fn list_body_at(tokens: Seq<TokenView>, pos: nat, list_type: Type) -> Parsed<
    Seq<ElementView>,
> {
    let behind = after(tokens, pos);
    let first = match token_at(tokens, pos) {
        TokenView::Value(v, _) => Some(ElementView::Value(v)),
        TokenView::Identifier(id, _) => Some(ElementView::Identifier(id)),
        _ => None,
    };
    if first is None {
        Err(
            found_error(
                "unexpected token in list: `"@,
                token_at(tokens, pos),
                "`"@,
                location(tokens, behind),
            ),
        )
    } else if is_symbol(tokens, behind, Symbol::Range) {
        if list_type != Type::Int {
            Err(
                ErrorView::Parser(
                    "range syntax is only allowed for lists of integers"@,
                    location(tokens, behind),
                ),
            )
        } else {
            match first->0 {
                ElementView::Value(ValueView::Integer(start)) => match token_at(
                    tokens,
                    behind + 1,
                ) {
                    TokenView::Value(ValueView::Integer(end), _) => closing_at(
                        tokens,
                        behind + 2,
                        range_elements(start, end),
                    ),
                    other => Err(
                        found_error(
                            "expected integer after '..', found `"@,
                            other,
                            "`"@,
                            location(tokens, after(tokens, behind + 1)),
                        ),
                    ),
                },
                _ => Err(
                    ErrorView::Parser("range start must be an integer"@, location(tokens, behind)),
                ),
            }
        }
    } else {
        match elements_at(tokens, behind, seq![first->0]) {
            Err(e) => Err(e),
            Ok((elements, at)) => closing_at(tokens, at, elements),
        }
    }
}

/// A list: its element type, then its elements between brackets. The list
/// bears the line of the token behind the opening bracket.
pub open spec fn list_at(tokens: Seq<TokenView>, pos: nat) -> Parsed<ListView> {
    match token_at(tokens, pos) {
        TokenView::Type(list_type, _) => {
            if !is_symbol(tokens, pos + 1, Symbol::LB) {
                Err(expected_error("opening bracket"@, location(tokens, after(tokens, pos + 1))))
            } else {
                let line = location(tokens, pos + 2);
                if is_symbol(tokens, pos + 2, Symbol::RB) {
                    Ok((ListView { list_type, elements: Seq::empty(), line }, pos + 3))
                } else {
                    match list_body_at(tokens, pos + 2, list_type) {
                        Err(e) => Err(e),
                        Ok((elements, next)) => Ok((ListView { list_type, elements, line }, next)),
                    }
                }
            }
        },
        _ => Err(
            ErrorView::Parser(
                "expected type in list expression"@,
                location(tokens, after(tokens, pos)),
            ),
        ),
    }
}

/// The line an error speaks of.
pub open spec fn error_line(e: ErrorView) -> usize {
    match e {
        ErrorView::Lexer(_, line) => line,
        ErrorView::Parser(_, line) => line,
        ErrorView::Interpreter(_, line) => line,
    }
}

/// A pipe behind the expression `left`: `>>` and the name of a function. The
/// pipe bears the line of that name.
pub open spec fn pipe_at(tokens: Seq<TokenView>, pos: nat, left: ExpressionView) -> Parsed<
    ExpressionView,
> {
    match token_at(tokens, pos + 1) {
        TokenView::Identifier(right, line) => Ok(
            (ExpressionView::Pipe { left: Box::new(left), right, line }, pos + 2),
        ),
        other => Err(
            found_error(
                "expected identifier after pipe, found `"@,
                other,
                "`"@,
                location(tokens, after(tokens, pos + 1)),
            ),
        ),
    }
}

/// What stands in for a rule that succeeded without taking a token. No rule
/// does (`lemma_argument_moves`, `lemma_expression_moves`,
/// `lemma_function_moves`); the case is written out only so that the rules
/// are seen to end.
pub open spec fn stuck() -> ErrorView {
    ErrorView::Parser("no progress"@, 0)
}

/// An expression: a value, a call, an operation, a conditional or a list; a
/// pipe may follow it.
pub open spec fn expression_at(tokens: Seq<TokenView>, pos: nat) -> Parsed<ExpressionView>
    decreases left(tokens, pos), 2nat,
{
    let first: Parsed<ExpressionView> = match token_at(tokens, pos) {
        TokenView::Value(v, _) => Ok((ExpressionView::Value(v), pos + 1)),
        TokenView::Identifier(id, _) => call_at(tokens, pos + 1, id),
        TokenView::Operator(operator, line) => operation_at(tokens, pos + 1, operator, line),
        TokenView::Conditional(tokens::Conditional::If, line) => conditional_at(
            tokens,
            pos + 1,
            line,
        ),
        TokenView::Type(_, _) => match list_at(tokens, pos) {
            Err(e) => Err(e),
            Ok((list, next)) => Ok((ExpressionView::Value(ValueView::List(list)), next)),
        },
        other => Err(found_error("expected expression, found "@, other, ""@, location(tokens, pos))),
    };
    match first {
        Err(e) => Err(e),
        Ok((expression, next)) => if is_symbol(tokens, next, Symbol::Pipe) {
            pipe_at(tokens, next, expression)
        } else {
            Ok((expression, next))
        },
    }
}

/// A call of the function `id`, behind its name: the arguments. The call
/// bears the line of the token behind the name.
pub open spec fn call_at(tokens: Seq<TokenView>, at: nat, id: Seq<char>) -> Parsed<ExpressionView>
    decreases left(tokens, at), 4nat,
{
    let line = location(tokens, at);
    match arguments_at(tokens, at, Seq::empty()) {
        Err(e) => Err(e),
        Ok((arguments, next)) => Ok(
            (ExpressionView::FunctionCall { name: NameView { id, line }, arguments, line }, next),
        ),
    }
}

/// An operation, behind its operator: the arguments. The operation bears the
/// line of the operator.
pub open spec fn operation_at(
    tokens: Seq<TokenView>,
    at: nat,
    operator: Operator,
    line: usize,
) -> Parsed<ExpressionView>
    decreases left(tokens, at), 4nat,
{
    match arguments_at(tokens, at, Seq::empty()) {
        Err(e) => Err(e),
        Ok((arguments, next)) => Ok((ExpressionView::Operation { operator, arguments, line }, next)),
    }
}

/// What the argument list finds at `pos`: one more argument, or its end. The
/// list ends before a closing parenthesis, a pipe, `then`, `else` and the end
/// of input, and behind the end of the line. Of the operators only `+` and
/// `-` may begin an argument.
pub open spec fn argument_at(tokens: Seq<TokenView>, pos: nat) -> Parsed<Option<ArgumentView>>
    decreases left(tokens, pos), 2nat,
{
    let line = location(tokens, pos);
    match token_at(tokens, pos) {
        TokenView::Symbol(Symbol::EOF, _) => Ok((None, pos)),
        TokenView::Symbol(Symbol::RP, _) => Ok((None, pos)),
        TokenView::Symbol(Symbol::Pipe, _) => Ok((None, pos)),
        TokenView::Conditional(tokens::Conditional::Then, _) => Ok((None, pos)),
        TokenView::Conditional(tokens::Conditional::Else, _) => Ok((None, pos)),
        TokenView::Symbol(Symbol::EOL, _) => Ok((None, pos + 1)),
        TokenView::Value(v, _) => Ok((Some(ArgumentView::Value(v)), pos + 1)),
        TokenView::Identifier(id, _) => Ok(
            (Some(ArgumentView::Identifier(NameView { id, line })), pos + 1),
        ),
        TokenView::Operator(operator, _) => if operator == Operator::Sub || operator
            == Operator::Add {
            match operation_at(tokens, pos + 1, operator, line) {
                Err(e) => Err(e),
                Ok((operation, next)) => Ok((Some(ArgumentView::ParenExpression(operation)), next)),
            }
        } else {
            Err(
                found_error(
                    "unexpected token in function arguments: `"@,
                    token_at(tokens, pos),
                    "`"@,
                    line,
                ),
            )
        },
        TokenView::Symbol(Symbol::LP, _) => match paren_expression_at(tokens, pos + 1) {
            Err(e) => Err(e),
            Ok((argument, next)) => Ok((Some(argument), next)),
        },
        TokenView::Type(_, _) => match list_at(tokens, pos) {
            Err(e) => Err(ErrorView::Parser("expected list expression"@, error_line(e))),
            Ok((list, next)) => Ok((Some(ArgumentView::Value(ValueView::List(list))), next)),
        },
        other => Err(found_error("unexpected token in function arguments: `"@, other, "`"@, line)),
    }
}

/// The arguments from `pos` on, after those in `found`.
pub open spec fn arguments_at(tokens: Seq<TokenView>, pos: nat, found: Seq<ArgumentView>) -> Parsed<
    Seq<ArgumentView>,
>
    decreases left(tokens, pos), 3nat,
{
    match argument_at(tokens, pos) {
        Err(e) => Err(e),
        Ok((None, next)) => Ok((found, next)),
        Ok((Some(argument), next)) => if left(tokens, next) < left(tokens, pos) {
            arguments_at(tokens, next, found.push(argument))
        } else {
            Err(stuck())
        },
    }
}

/// The line break that may stand before `then` and before `else`.
pub open spec fn past_line_break(tokens: Seq<TokenView>, pos: nat) -> nat {
    if is_symbol(tokens, pos, Symbol::EOL) {
        pos + 1
    } else {
        pos
    }
}

/// Whether the keyword `keyword` stands at `pos`.
pub open spec fn is_keyword(tokens: Seq<TokenView>, pos: nat, keyword: tokens::Conditional) -> bool {
    token_at(tokens, pos) matches TokenView::Conditional(k, _) && k == keyword
}

/// A conditional, behind its `if`: a condition, `then` and an expression,
/// `else` and an expression. The conditional bears the line of its `if`.
pub open spec fn conditional_at(tokens: Seq<TokenView>, at: nat, line: usize) -> Parsed<
    ExpressionView,
>
    decreases left(tokens, at), 4nat,
{
    match expression_at(tokens, at) {
        Err(e) => Err(e),
        Ok((condition, behind_condition)) => {
            let at_then = past_line_break(tokens, behind_condition);
            if !is_keyword(tokens, at_then, tokens::Conditional::Then) {
                Err(expected_error("then"@, line))
            } else if at_then < at {
                Err(stuck())
            } else {
                match expression_at(tokens, at_then + 1) {
                    Err(e) => Err(e),
                    Ok((then, behind_then)) => {
                        let at_else = past_line_break(tokens, behind_then);
                        if !is_keyword(tokens, at_else, tokens::Conditional::Else) {
                            Err(expected_error("else"@, location(tokens, after(tokens, at_else))))
                        } else if at_else < at {
                            Err(stuck())
                        } else {
                            match expression_at(tokens, at_else + 1) {
                                Err(e) => Err(e),
                                Ok((otherwise, next)) => Ok(
                                    (
                                        ExpressionView::Conditional {
                                            condition: Box::new(condition),
                                            then: Box::new(then),
                                            otherwise: Box::new(otherwise),
                                            line,
                                        },
                                        next,
                                    ),
                                ),
                            }
                        }
                    },
                }
            }
        },
    }
}

/// An expression in parentheses, behind the opening parenthesis.
pub open spec fn paren_expression_at(tokens: Seq<TokenView>, at: nat) -> Parsed<ArgumentView>
    decreases left(tokens, at), 4nat,
{
    match expression_at(tokens, at) {
        Err(e) => Err(e),
        Ok((expression, next)) => if is_symbol(tokens, next, Symbol::RP) {
            Ok((ArgumentView::ParenExpression(expression), next + 1))
        } else {
            Err(
                ErrorView::Parser(
                    "expected closing parenthesis"@,
                    location(tokens, after(tokens, next)),
                ),
            )
        },
    }
}

/// The functions from `pos` on, after those in `found`; blank lines between
/// functions make nothing.
pub open spec fn program_from(tokens: Seq<TokenView>, pos: nat, found: Seq<FunctionView>) -> Result<
    Seq<FunctionView>,
    ErrorView,
>
    decreases left(tokens, pos),
{
    if !has_more(tokens, pos) {
        Ok(found)
    } else if is_symbol(tokens, pos, Symbol::EOL) {
        program_from(tokens, pos + 1, found)
    } else {
        match function_at(tokens, pos) {
            Err(e) => Err(e),
            Ok((function, next)) => if next > pos {
                program_from(tokens, next, found.push(function))
            } else {
                Err(stuck())
            },
        }
    }
}

/// The program that `tokens` write, or the first error in them. No tokens at
/// all write no program.
pub open spec fn parse(tokens: Seq<TokenView>) -> Result<Seq<FunctionView>, ErrorView> {
    if tokens.len() == 0 {
        Err(ErrorView::Parser("empty program"@, 0))
    } else {
        program_from(tokens, 0, Seq::empty())
    }
}

proof fn lemma_order_is_total(a: Seq<char>, b: Seq<char>, i: nat)
    requires
        i <= a.len(),
        i <= b.len(),
        forall|k: int| 0 <= k < i ==> a[k] == b[k],
    ensures
        a == b || text_lt_from(a, b, i) || text_lt_from(b, a, i),
    decreases a.len() - i,
{
    if i < a.len() && i < b.len() && a[i as int] == b[i as int] {
        lemma_order_is_total(a, b, i + 1);
    } else if i == a.len() && i == b.len() {
        assert(a =~= b);
    }
}

proof fn lemma_order_is_transitive(a: Seq<char>, b: Seq<char>, c: Seq<char>, i: nat)
    requires
        text_lt_from(a, b, i),
        text_lt_from(b, c, i),
    ensures
        text_lt_from(a, c, i),
    decreases a.len() - i,
{
    if i < a.len() && i < b.len() && i < c.len() && a[i as int] == b[i as int] && b[i as int]
        == c[i as int] {
        lemma_order_is_transitive(a, b, c, i + 1);
    }
}

proof fn lemma_slot(names: Seq<NameView>, id: Seq<char>, i: nat)
    requires
        i <= names.len(),
    ensures
        i <= slot_from(names, id, i) <= names.len(),
        forall|k: int| i <= k < slot_from(names, id, i) ==> !text_lt(id, #[trigger] names[k].id),
        slot_from(names, id, i) < names.len() ==> text_lt(
            id,
            names[slot_from(names, id, i) as int].id,
        ),
    decreases names.len() - i,
{
    if i < names.len() && !text_lt(id, names[i as int].id) {
        lemma_slot(names, id, i + 1);
    }
}

/// A new name put in its place leaves sorted names sorted.
pub proof fn lemma_with_name_sorted(names: Seq<NameView>, name: NameView)
    requires
        names_sorted(names),
        !has_name(names, name.id),
    ensures
        names_sorted(with_name(names, name)),
{
    let at = slot_from(names, name.id, 0) as int;
    lemma_slot(names, name.id, 0);
    let next = with_name(names, name);
    assert forall|i: int, j: int| 0 <= i < j < next.len() implies text_lt(
        #[trigger] next[i].id,
        #[trigger] next[j].id,
    ) by {
        if j < at {
            assert(next[i] == names[i] && next[j] == names[j]);
        } else if j == at {
            assert(next[i] == names[i]);
            assert(names[i].id != name.id);
            lemma_order_is_total(names[i].id, name.id, 0);
        } else if i < at {
            assert(next[i] == names[i] && next[j] == names[j - 1]);
        } else if i == at {
            assert(next[j] == names[j - 1]);
            if j - 1 > at {
                lemma_order_is_transitive(name.id, names[at].id, names[j - 1].id, 0);
            }
        } else {
            assert(next[i] == names[i - 1] && next[j] == names[j - 1]);
        }
    }
}

proof fn lemma_params_sorted(tokens: Seq<TokenView>, pos: nat, found: Seq<NameView>)
    requires
        names_sorted(found),
        params_at(tokens, pos, found) is Ok,
    ensures
        names_sorted(params_at(tokens, pos, found)->Ok_0.0),
    decreases left(tokens, pos),
{
    if !is_symbol(tokens, pos, Symbol::Assign) {
        match token_at(tokens, pos) {
            TokenView::Identifier(id, _) => {
                let name = NameView { id, line: location(tokens, pos + 1) };
                lemma_with_name_sorted(found, name);
                lemma_params_sorted(tokens, pos + 1, with_name(found, name));
            },
            _ => {},
        }
    }
}

/// The parameter names of a definition are held in the strict order of a
/// dictionary, whatever order they were written in. A call binds its
/// arguments to them in that order.
pub proof fn lemma_parameters_are_sorted(tokens: Seq<TokenView>, pos: nat)
    requires
        definition_at(tokens, pos) is Ok,
    ensures
        names_sorted(definition_at(tokens, pos)->Ok_0.0.parameters),
{
    lemma_params_sorted(tokens, pos + 1, Seq::empty());
}

proof fn lemma_elements_move(tokens: Seq<TokenView>, pos: nat, found: Seq<ElementView>)
    requires
        elements_at(tokens, pos, found) is Ok,
    ensures
        elements_at(tokens, pos, found)->Ok_0.1 >= pos,
    decreases left(tokens, pos),
{
    if !is_symbol(tokens, pos, Symbol::RB) {
        match token_at(tokens, pos) {
            TokenView::Value(v, _) => {
                lemma_elements_move(tokens, pos + 1, found.push(ElementView::Value(v)));
            },
            TokenView::Identifier(id, _) => {
                lemma_elements_move(tokens, pos + 1, found.push(ElementView::Identifier(id)));
            },
            _ => {},
        }
    }
}

/// A list takes at least one token.
pub proof fn lemma_list_moves(tokens: Seq<TokenView>, pos: nat)
    requires
        list_at(tokens, pos) is Ok,
    ensures
        pos < list_at(tokens, pos)->Ok_0.1,
        pos < tokens.len(),
{
    if !is_symbol(tokens, pos + 2, Symbol::RB) {
        let behind = after(tokens, pos + 2);
        if !is_symbol(tokens, behind, Symbol::Range) {
            let first = match token_at(tokens, pos + 2) {
                TokenView::Value(v, _) => ElementView::Value(v),
                TokenView::Identifier(id, _) => ElementView::Identifier(id),
                _ => ElementView::Identifier(Seq::empty()),
            };
            lemma_elements_move(tokens, behind, seq![first]);
        }
    }
}

/// An expression takes at least one token.
pub proof fn lemma_expression_moves(tokens: Seq<TokenView>, pos: nat)
    requires
        expression_at(tokens, pos) is Ok,
    ensures
        pos < expression_at(tokens, pos)->Ok_0.1,
        pos < tokens.len(),
    decreases left(tokens, pos), 2nat,
{
    match token_at(tokens, pos) {
        TokenView::Identifier(id, _) => {
            lemma_call_moves(tokens, pos + 1, id);
        },
        TokenView::Operator(operator, line) => {
            lemma_operation_moves(tokens, pos + 1, operator, line);
        },
        TokenView::Conditional(tokens::Conditional::If, line) => {
            lemma_conditional_moves(tokens, pos + 1, line);
        },
        TokenView::Type(_, _) => {
            lemma_list_moves(tokens, pos);
        },
        _ => {},
    }
}

proof fn lemma_call_moves(tokens: Seq<TokenView>, at: nat, id: Seq<char>)
    requires
        call_at(tokens, at, id) is Ok,
    ensures
        at <= call_at(tokens, at, id)->Ok_0.1,
    decreases left(tokens, at), 4nat,
{
    lemma_arguments_move(tokens, at, Seq::empty());
}

proof fn lemma_operation_moves(tokens: Seq<TokenView>, at: nat, operator: Operator, line: usize)
    requires
        operation_at(tokens, at, operator, line) is Ok,
    ensures
        at <= operation_at(tokens, at, operator, line)->Ok_0.1,
    decreases left(tokens, at), 4nat,
{
    lemma_arguments_move(tokens, at, Seq::empty());
}

/// An argument takes at least one token, so fewer tokens are left behind it
/// than before it.
pub proof fn lemma_argument_moves(tokens: Seq<TokenView>, pos: nat)
    requires
        argument_at(tokens, pos) is Ok,
    ensures
        pos <= argument_at(tokens, pos)->Ok_0.1,
        argument_at(tokens, pos)->Ok_0.0 is Some ==> left(tokens, argument_at(tokens, pos)->Ok_0.1)
            < left(tokens, pos),
    decreases left(tokens, pos), 2nat,
{
    match token_at(tokens, pos) {
        TokenView::Operator(operator, _) => {
            if operator == Operator::Sub || operator == Operator::Add {
                lemma_operation_moves(tokens, pos + 1, operator, location(tokens, pos));
            }
        },
        TokenView::Symbol(Symbol::LP, _) => {
            lemma_paren_moves(tokens, pos + 1);
        },
        TokenView::Type(_, _) => {
            lemma_list_moves(tokens, pos);
        },
        _ => {},
    }
}

proof fn lemma_arguments_move(tokens: Seq<TokenView>, pos: nat, found: Seq<ArgumentView>)
    requires
        arguments_at(tokens, pos, found) is Ok,
    ensures
        pos <= arguments_at(tokens, pos, found)->Ok_0.1,
    decreases left(tokens, pos), 3nat,
{
    lemma_argument_moves(tokens, pos);
    match argument_at(tokens, pos) {
        Ok((Some(argument), next)) => {
            lemma_arguments_move(tokens, next, found.push(argument));
        },
        _ => {},
    }
}

proof fn lemma_paren_moves(tokens: Seq<TokenView>, at: nat)
    requires
        paren_expression_at(tokens, at) is Ok,
    ensures
        at < paren_expression_at(tokens, at)->Ok_0.1,
    decreases left(tokens, at), 4nat,
{
    lemma_expression_moves(tokens, at);
}

/// The branches of a conditional stand behind its condition.
pub proof fn lemma_conditional_moves(tokens: Seq<TokenView>, at: nat, line: usize)
    requires
        conditional_at(tokens, at, line) is Ok,
    ensures
        at < conditional_at(tokens, at, line)->Ok_0.1,
    decreases left(tokens, at), 4nat,
{
    lemma_expression_moves(tokens, at);
    let at_then = past_line_break(tokens, expression_at(tokens, at)->Ok_0.1);
    lemma_expression_moves(tokens, at_then + 1);
    let at_else = past_line_break(tokens, expression_at(tokens, at_then + 1)->Ok_0.1);
    lemma_expression_moves(tokens, at_else + 1);
}

proof fn lemma_parameter_types_move(tokens: Seq<TokenView>, pos: nat, line: usize, found: Seq<Type>)
    requires
        parameter_types_at(tokens, pos, line, found) is Ok,
    ensures
        pos <= parameter_types_at(tokens, pos, line, found)->Ok_0.1 < tokens.len(),
    decreases left(tokens, pos),
{
    if !is_symbol(tokens, pos, Symbol::Return) {
        match token_at(tokens, pos) {
            TokenView::Type(t, _) => {
                lemma_parameter_types_move(tokens, pos + 1, line, found.push(t));
            },
            TokenView::Symbol(Symbol::LB, _) => match token_at(tokens, pos + 1) {
                TokenView::Type(t, _) => {
                    lemma_parameter_types_move(
                        tokens,
                        pos + 3,
                        line,
                        found.push(Type::List(Box::new(t))),
                    );
                },
                _ => {},
            },
            _ => {},
        }
    }
}

/// A function takes at least one token.
pub proof fn lemma_function_moves(tokens: Seq<TokenView>, pos: nat)
    requires
        function_at(tokens, pos) is Ok,
    ensures
        pos < function_at(tokens, pos)->Ok_0.1,
{
    lemma_parameter_types_move(tokens, pos, location(tokens, pos), Seq::empty());
    let at = signature_at(tokens, pos)->Ok_0.1;
    match token_at(tokens, at) {
        TokenView::Identifier(id, _) => {
            let behind = params_at(tokens, at + 1, Seq::empty())->Ok_0.1;
            lemma_expression_moves(tokens, behind);
            lemma_params_move(tokens, at + 1, Seq::empty());
        },
        _ => {},
    }
}

proof fn lemma_params_move(tokens: Seq<TokenView>, pos: nat, found: Seq<NameView>)
    requires
        params_at(tokens, pos, found) is Ok,
    ensures
        pos <= params_at(tokens, pos, found)->Ok_0.1,
    decreases left(tokens, pos),
{
    if !is_symbol(tokens, pos, Symbol::Assign) {
        match token_at(tokens, pos) {
            TokenView::Identifier(id, _) => {
                lemma_params_move(
                    tokens,
                    pos + 1,
                    with_name(found, NameView { id, line: location(tokens, pos + 1) }),
                );
            },
            _ => {},
        }
    }
}

fn parser_error(message: &str, line: usize) -> (e: CompilerError)
    ensures
        e@ == ErrorView::Parser(message@, line),
{
    CompilerError::Parser(String::from_str(message), line)
}

fn found(before: &str, token: &str, behind: &str, line: usize) -> (e: CompilerError)
    ensures
        e@ == ErrorView::Parser(before@ + token@ + behind@, line),
{
    let mut message = String::from_str(before);
    message.append(token);
    message.append(behind);
    CompilerError::Parser(message, line)
}

fn expected(what: &str, line: usize) -> (e: CompilerError)
    ensures
        e@ == expected_error(what@, line),
{
    let mut message = String::from_str("expected `");
    message.append(what);
    message.append("`");
    CompilerError::Parser(message, line)
}

fn chars_of(text: &str) -> (chars: Vec<char>)
    ensures
        chars@ == text@,
{
    let mut chars: Vec<char> = Vec::new();
    for c in it: text.chars()
        invariant
            it.seq() == text@,
            chars@ == text@.take(it.index() as int),
    {
        chars.push(c);
    }
    chars
}

/// Whether `a` comes before `b` in the order of a dictionary.
pub fn text_less(a: &str, b: &str) -> (less: bool)
    ensures
        less == text_lt(a@, b@),
{
    let left = chars_of(a);
    let right = chars_of(b);
    let mut i: usize = 0;
    loop
        invariant
            left@ == a@,
            right@ == b@,
            i <= left.len(),
            text_lt(a@, b@) == text_lt_from(a@, b@, i as nat),
        decreases left.len() - i,
    {
        if i >= right.len() {
            return false;
        }
        if i >= left.len() {
            return true;
        }
        if left[i] != right[i] {
            return left[i] < right[i];
        }
        i += 1;
    }
}

/// Builds the program that `tokens` write. The first error ends the build.
pub fn build(tokens: Vec<Token>) -> (result: Result<Program, CompilerError>)
    ensures
        match parse(views(tokens@)) {
            Ok(functions) => result matches Ok(program) && program@ == functions,
            Err(error) => result matches Err(e) && e@ == error,
        },
{
    if tokens.len() == 0 {
        return Err(parser_error("empty program", 0));
    }
    let ghost all = views(tokens@);
    let mut parser = Parser::new(tokens);
    let mut program: Program = Program { functions: Vec::new() };
    assert(program@ =~= Seq::<FunctionView>::empty());

    while parser.has_more()
        invariant
            parser.wf(),
            parser.tokens() == all,
            all == views(tokens@),
            parse(all) == program_from(all, parser.position(), program@),
            all.len() > 0,
        decreases left(all, parser.position()),
    {
        let ghost pos = parser.position();
        // Allow blank lines between functions
        let blank = match parser.peek() {
            Token::Symbol(Symbol::EOL, _) => true,
            _ => false,
        };
        if blank {
            parser.advance();
            continue ;
        }
        let ghost before = program@;
        let function = parse_function(&mut parser)?;
        program.functions.push(function);
        assert(program@ =~= before.push(function@));
    }

    Ok(program)
}

fn parse_function(parser: &mut Parser) -> (result: Result<Function, CompilerError>)
    requires
        old(parser).wf(),
    ensures
        final(parser).wf(),
        final(parser).tokens() == old(parser).tokens(),
        final(parser).position() >= old(parser).position(),
        match function_at(old(parser).tokens(), old(parser).position()) {
            Ok((function, next)) => {
                &&& result matches Ok(f)
                &&& f@ == function
                &&& final(parser).position() == next
                &&& next > old(parser).position()
            },
            Err(error) => result matches Err(e) && e@ == error,
        },
{
    let signature = parse_signature(parser)?;
    let definition = parse_definition(parser)?;

    Ok(Function { signature, definition })
}

fn parse_signature(parser: &mut Parser) -> (result: Result<Signature, CompilerError>)
    requires
        old(parser).wf(),
    ensures
        final(parser).wf(),
        final(parser).tokens() == old(parser).tokens(),
        final(parser).position() >= old(parser).position(),
        match signature_at(old(parser).tokens(), old(parser).position()) {
            Ok((signature, next)) => {
                &&& result matches Ok(s)
                &&& s@ == signature
                &&& final(parser).position() == next
                &&& next > old(parser).position()
            },
            Err(error) => result matches Err(e) && e@ == error,
        },
{
    let ghost all = parser.tokens();
    let ghost start = parser.position();
    let mut parameters: Vec<Type> = Vec::new();
    let line = parser.location();
    loop
        invariant
            parser.wf(),
            parser.tokens() == all,
            all == old(parser).tokens(),
            start == old(parser).position(),
            parser.position() >= start,
            line == location(all, start),
            parameter_types_at(all, start, line, Seq::empty()) == parameter_types_at(
                all,
                parser.position(),
                line,
                parameters@,
            ),
        ensures
            is_symbol(all, parser.position(), Symbol::Return),
        decreases left(all, parser.position()),
    {
        let at_arrow = match parser.peek() {
            Token::Symbol(Symbol::Return, _) => true,
            _ => false,
        };
        if at_arrow {
            break ;
        }
        let ghost before = parameters@;
        match parser.advance() {
            Token::Type(t, _) => {
                parameters.push(t.copy());
            },
            Token::Symbol(Symbol::LB, _) => {
                // Parse list parameter
                if let Token::Type(t, _) = parser.advance() {
                    parameters.push(Type::List(Box::new(t.copy())));
                    let closed = match parser.advance() {
                        Token::Symbol(Symbol::RB, _) => true,
                        _ => false,
                    };
                    if !closed {
                        return Err(
                            parser_error(
                                "expected closing bracket in function signature parameters",
                                line,
                            ),
                        );
                    }
                } else {
                    return Err(
                        parser_error("expected type in list parameter in function signature", line),
                    );
                }
            },
            t => {
                let text = t.to_string();
                return Err(
                    found("unexpected token in function signature: `", text.as_str(), "`", line),
                );
            },
        }
    }

    parser.advance();  // Consume `->`

    let return_type = match parser.advance() {
        Token::Type(t, _) => t.copy(),
        Token::Symbol(Symbol::LB, _) => {
            // Parse list parameter
            if let Token::Type(t, _) = parser.advance() {
                let ret = Type::List(Box::new(t.copy()));
                let closed = match parser.advance() {
                    Token::Symbol(Symbol::RB, _) => true,
                    _ => false,
                };
                if !closed {
                    return Err(
                        parser_error("expected closing bracket in function return type", line),
                    );
                }
                ret
            } else {
                return Err(
                    parser_error(
                        "expected type in list parameter in function signature return type",
                        parser.location(),
                    ),
                );
            }
        },
        _ => {
            return Err(
                parser_error("expected return type in function signature", parser.location()),
            );
        },
    };

    let ended = match parser.advance() {
        Token::Symbol(Symbol::EOL, _) => true,
        _ => false,
    };
    if !ended {
        return Err(
            parser_error("expected function definition after signature", parser.location()),
        );
    }

    Ok(Signature { parameters, returns: return_type })
}

fn has(names: &Vec<LocatedIdentifier>, id: &String) -> (found: bool)
    ensures
        found == has_name(views(names@), id@),
{
    let mut i: usize = 0;
    while i < names.len()
        invariant
            i <= names.len(),
            forall|k: int| 0 <= k < i ==> (#[trigger] views(names@)[k]).id != id@,
        decreases names.len() - i,
    {
        if names[i].id == *id {
            assert(views(names@)[i as int].id == id@);
            return true;
        }
        i += 1;
    }
    false
}

fn slot(names: &Vec<LocatedIdentifier>, id: &String) -> (at: usize)
    ensures
        at == slot_from(views(names@), id@, 0),
        at <= names.len(),
{
    let mut i: usize = 0;
    while i < names.len()
        invariant
            i <= names.len(),
            slot_from(views(names@), id@, 0) == slot_from(views(names@), id@, i as nat),
        decreases names.len() - i,
    {
        if text_less(id.as_str(), names[i].id.as_str()) {
            return i;
        }
        i += 1;
    }
    i
}

fn parse_definition(parser: &mut Parser) -> (result: Result<Definition, CompilerError>)
    requires
        old(parser).wf(),
    ensures
        final(parser).wf(),
        final(parser).tokens() == old(parser).tokens(),
        final(parser).position() >= old(parser).position(),
        match definition_at(old(parser).tokens(), old(parser).position()) {
            Ok((definition, next)) => {
                &&& result matches Ok(d)
                &&& d@ == definition
                &&& final(parser).position() == next
                &&& next > old(parser).position()
            },
            Err(error) => result matches Err(e) && e@ == error,
        },
{
    let name = match parser.advance() {
        Token::Identifier(name, _) => name.clone(),
        Token::Symbol(Symbol::EOL, _) => {
            let line = parser.location();
            return Err(
                parser_error(
                    "expected definition name, found empty line",
                    if line > 0 {
                        line - 1
                    } else {
                        0
                    },
                ),
            );
        },
        token => {
            let text = token.to_string();
            return Err(
                found("expected definition name, found `", text.as_str(), "`", parser.location()),
            );
        },
    };
    let line = parser.location();
    let parameters = parse_params(parser)?;
    let body = parse_expression(parser)?;
    let name = LocatedIdentifier { id: name, line };
    Ok(Definition { name, parameters, body })
}

fn parse_params(parser: &mut Parser) -> (result: Result<Vec<LocatedIdentifier>, CompilerError>)
    requires
        old(parser).wf(),
    ensures
        final(parser).wf(),
        final(parser).tokens() == old(parser).tokens(),
        final(parser).position() >= old(parser).position(),
        match params_at(old(parser).tokens(), old(parser).position(), Seq::empty()) {
            Ok((names, next)) => {
                &&& result matches Ok(found)
                &&& views(found@) == names
                &&& final(parser).position() == next
            },
            Err(error) => result matches Err(e) && e@ == error,
        },
{
    let ghost all = parser.tokens();
    let ghost start = parser.position();
    let mut params: Vec<LocatedIdentifier> = Vec::new();
    assert(views(params@) =~= Seq::<NameView>::empty());
    loop
        invariant
            parser.wf(),
            parser.tokens() == all,
            all == old(parser).tokens(),
            start == old(parser).position(),
            parser.position() >= start,
            params_at(all, start, Seq::empty()) == params_at(
                all,
                parser.position(),
                views(params@),
            ),
        ensures
            is_symbol(all, parser.position(), Symbol::Assign),
        decreases left(all, parser.position()),
    {
        let at_assign = match parser.peek() {
            Token::Symbol(Symbol::Assign, _) => true,
            _ => false,
        };
        if at_assign {
            break ;
        }
        if let Token::Identifier(l_id, _) = parser.advance() {
            let id = l_id.clone();
            let l_id = LocatedIdentifier { id, line: parser.location() };
            if has(&params, &l_id.id) {
                return Err(
                    found("duplicate parameter name `", l_id.id.as_str(), "`", l_id.line),
                );
            }
            let at = slot(&params, &l_id.id);
            let ghost before = views(params@);
            params.insert(at, l_id);
            assert(views(params@) =~= with_name(before, l_id@));
        } else {
            return Err(
                parser_error("expected identifier in definition parameters", parser.location()),
            );
        }
    }
    parser.advance();
    Ok(params)
}

fn parse_expression(parser: &mut Parser) -> (result: Result<Expression, CompilerError>)
    requires
        old(parser).wf(),
    ensures
        final(parser).wf(),
        final(parser).tokens() == old(parser).tokens(),
        final(parser).position() >= old(parser).position(),
        match expression_at(old(parser).tokens(), old(parser).position()) {
            Ok((expression, next)) => {
                &&& result matches Ok(x)
                &&& x@ == expression
                &&& final(parser).position() == next
                &&& next > old(parser).position()
            },
            Err(error) => result matches Err(e) && e@ == error,
        },
    decreases left(old(parser).tokens(), old(parser).position()), 2nat,
{
    let expression = match parser.peek() {
        Token::Value(_, _) => parse_value(parser),
        Token::Identifier(_, _) => parse_call(parser),
        Token::Operator(_, _) => parse_operation(parser),
        Token::Conditional(tokens::Conditional::If, _) => parse_conditional(parser),
        Token::Type(_, _) => parse_list(parser),
        token => {
            let text = token.to_string();
            Err(found("expected expression, found ", text.as_str(), "", parser.location()))
        },
    };
    let piped = match parser.peek() {
        Token::Symbol(Symbol::Pipe, _) => true,
        _ => false,
    };
    match expression {
        Err(error) => Err(error),
        Ok(expression) => {
            if piped {
                parse_pipe(parser, expression)
            } else {
                Ok(expression)
            }
        },
    }
}

fn parse_pipe(parser: &mut Parser, expression: Expression) -> (result: Result<
    Expression,
    CompilerError,
>)
    requires
        old(parser).wf(),
        is_symbol(old(parser).tokens(), old(parser).position(), Symbol::Pipe),
    ensures
        final(parser).wf(),
        final(parser).tokens() == old(parser).tokens(),
        final(parser).position() >= old(parser).position(),
        match pipe_at(old(parser).tokens(), old(parser).position(), expression@) {
            Ok((piped, next)) => {
                &&& result matches Ok(x)
                &&& x@ == piped
                &&& final(parser).position() == next
                &&& next > old(parser).position()
            },
            Err(error) => result matches Err(e) && e@ == error,
        },
{
    parser.advance();
    let pipe = match parser.advance() {
        Token::Identifier(i, l) => Pipe { left: Box::new(expression), right: i.clone(), line: *l },
        token => {
            let text = token.to_string();
            return Err(
                found(
                    "expected identifier after pipe, found `",
                    text.as_str(),
                    "`",
                    parser.location(),
                ),
            );
        },
    };
    Ok(Expression::Call(Call::Pipe(pipe)))
}

fn parse_value(parser: &mut Parser) -> (result: Result<Expression, CompilerError>)
    requires
        old(parser).wf(),
        token_at(old(parser).tokens(), old(parser).position()) is Value,
    ensures
        final(parser).wf(),
        final(parser).tokens() == old(parser).tokens(),
        final(parser).position() >= old(parser).position(),
        final(parser).position() == old(parser).position() + 1,
        result matches Ok(x) && x@ == ExpressionView::Value(
            token_at(old(parser).tokens(), old(parser).position())->Value_0,
        ),
{
    match parser.advance() {
        Token::Value(value, _) => Ok(Expression::Value(value.copy())),
        _ => unreached(),
    }
}

fn parse_call(parser: &mut Parser) -> (result: Result<Expression, CompilerError>)
    requires
        old(parser).wf(),
        token_at(old(parser).tokens(), old(parser).position()) is Identifier,
    ensures
        final(parser).wf(),
        final(parser).tokens() == old(parser).tokens(),
        final(parser).position() >= old(parser).position(),
        match call_at(
            old(parser).tokens(),
            old(parser).position() + 1,
            token_at(old(parser).tokens(), old(parser).position())->Identifier_0,
        ) {
            Ok((expression, next)) => {
                &&& result matches Ok(x)
                &&& x@ == expression
                &&& final(parser).position() == next
                &&& next > old(parser).position()
            },
            Err(error) => result matches Err(e) && e@ == error,
        },
    decreases left(old(parser).tokens(), old(parser).position()), 1nat,
{
    let name = match parser.advance() {
        Token::Identifier(name, _) => name.clone(),
        _ => unreached(),
    };
    let line = parser.location();
    let name = LocatedIdentifier { id: name, line };
    let arguments: Vec<Argument> = parse_arguments(parser)?;
    Ok(Expression::Call(Call::FunctionCall(FunctionCall { name, arguments, line })))
}

fn parse_operation(parser: &mut Parser) -> (result: Result<Expression, CompilerError>)
    requires
        old(parser).wf(),
        token_at(old(parser).tokens(), old(parser).position()) is Operator,
    ensures
        final(parser).wf(),
        final(parser).tokens() == old(parser).tokens(),
        final(parser).position() >= old(parser).position(),
        match operation_at(
            old(parser).tokens(),
            old(parser).position() + 1,
            token_at(old(parser).tokens(), old(parser).position())->Operator_0,
            location(old(parser).tokens(), old(parser).position()),
        ) {
            Ok((expression, next)) => {
                &&& result matches Ok(x)
                &&& x@ == expression
                &&& final(parser).position() == next
                &&& next > old(parser).position()
            },
            Err(error) => result matches Err(e) && e@ == error,
        },
    decreases left(old(parser).tokens(), old(parser).position()), 1nat,
{
    let line = parser.location();
    let operator = match parser.advance() {
        Token::Operator(operator, _) => *operator,
        _ => unreached(),
    };
    let arguments: Vec<Argument> = parse_arguments(parser)?;
    Ok(Expression::Call(Call::Operation(Operation { operator, arguments, line })))
}

/// The elements that the range from `start` to `end` writes.
pub fn expand_range(start: i64, end: i64) -> (elements: Vec<Element>)
    ensures
        elements_view(elements) == range_elements(start, end),
        elements.len() == range(start as int, end as int).len(),
        forall|k: int|
            0 <= k < elements.len() ==> (#[trigger] elements[k])@ == ElementView::Value(
                ValueView::Integer(range(start as int, end as int)[k] as i64),
            ),
{
    let mut elements: Vec<Element> = Vec::new();
    let mut n = start;
    if start <= end {
        loop
            invariant_except_break
                elements.len() == n - start,
            invariant
                start <= n <= end,
                forall|k: int|
                    0 <= k < elements.len() ==> (#[trigger] elements[k])@ == ElementView::Value(
                        ValueView::Integer((start + k) as i64),
                    ),
            ensures
                n == end,
                elements.len() == end - start + 1,
                forall|k: int|
                    0 <= k < elements.len() ==> (#[trigger] elements[k])@ == ElementView::Value(
                        ValueView::Integer((start + k) as i64),
                    ),
            decreases end - n,
        {
            elements.push(Element::Value(Value::Integer(n)));
            if n == end {
                break ;
            }
            n += 1;
        }
    } else {
        loop
            invariant_except_break
                elements.len() == start - n,
            invariant
                end <= n <= start,
                forall|k: int|
                    0 <= k < elements.len() ==> (#[trigger] elements[k])@ == ElementView::Value(
                        ValueView::Integer((start - k) as i64),
                    ),
            ensures
                n == end,
                elements.len() == start - end + 1,
                forall|k: int|
                    0 <= k < elements.len() ==> (#[trigger] elements[k])@ == ElementView::Value(
                        ValueView::Integer((start - k) as i64),
                    ),
            decreases n - end,
        {
            elements.push(Element::Value(Value::Integer(n)));
            if n == end {
                break ;
            }
            n -= 1;
        }
    }
    assert(elements_view(elements) =~= range_elements(start, end));
    elements
}

fn parse_list(parser: &mut Parser) -> (result: Result<Expression, CompilerError>)
    requires
        old(parser).wf(),
    ensures
        final(parser).wf(),
        final(parser).tokens() == old(parser).tokens(),
        final(parser).position() >= old(parser).position(),
        match list_at(old(parser).tokens(), old(parser).position()) {
            Ok((list, next)) => {
                &&& result matches Ok(Expression::Value(Value::List(l)))
                &&& l@ == list
                &&& final(parser).position() == next
                &&& next > old(parser).position()
            },
            Err(error) => {
                &&& result matches Err(e)
                &&& e@ == error
                &&& error_line(error) == location(final(parser).tokens(), final(parser).position())
            },
        },
{
    let list_type = match parser.advance() {
        Token::Type(t, _) => t.copy(),
        _ => {
            return Err(parser_error("expected type in list expression", parser.location()));
        },
    };

    let opened = match parser.advance() {
        Token::Symbol(Symbol::LB, _) => true,
        _ => false,
    };
    if !opened {
        return Err(expected("opening bracket", parser.location()));
    }
    let line = parser.location();

    // Empty list
    let empty = match parser.peek() {
        Token::Symbol(Symbol::RB, _) => true,
        _ => false,
    };
    if empty {
        parser.advance();  // Consume closing bracket
        let list = List { list_type, elements: Vec::new(), line };
        assert(list@.elements =~= Seq::<ElementView>::empty());
        return Ok(Expression::Value(Value::List(list)));
    }
    let elements = parse_list_body(parser, &list_type)?;

    let list = List { list_type, elements, line };
    Ok(Expression::Value(Value::List(list)))
}

fn parse_closing(parser: &mut Parser) -> (result: Result<(), CompilerError>)
    requires
        old(parser).wf(),
    ensures
        final(parser).wf(),
        final(parser).tokens() == old(parser).tokens(),
        final(parser).position() >= old(parser).position(),
        final(parser).position() == after(old(parser).tokens(), old(parser).position()),
        match closing_at(old(parser).tokens(), old(parser).position(), Seq::empty()) {
            Ok((_, next)) => result is Ok && final(parser).position() == next,
            Err(error) => result matches Err(e) && e@ == error,
        },
{
    let closed = match parser.advance() {
        Token::Symbol(Symbol::RB, _) => true,
        _ => false,
    };
    if !closed {
        return Err(expected("closing bracket", parser.location()));
    }
    Ok(())
}

fn parse_list_body(parser: &mut Parser, list_type: &Type) -> (result: Result<
    Vec<Element>,
    CompilerError,
>)
    requires
        old(parser).wf(),
    ensures
        final(parser).wf(),
        final(parser).tokens() == old(parser).tokens(),
        final(parser).position() >= old(parser).position(),
        match list_body_at(old(parser).tokens(), old(parser).position(), *list_type) {
            Ok((elements, next)) => {
                &&& result matches Ok(found)
                &&& elements_view(found) == elements
                &&& final(parser).position() == next
                &&& next > old(parser).position()
            },
            Err(error) => {
                &&& result matches Err(e)
                &&& e@ == error
                &&& error_line(error) == location(final(parser).tokens(), final(parser).position())
            },
        },
{
    let first_element = match parser.advance() {
        Token::Value(value, _) => Element::Value(value.copy()),
        Token::Identifier(id, _) => Element::Identifier(id.clone()),
        token => {
            let text = token.to_string();
            return Err(
                found("unexpected token in list: `", text.as_str(), "`", parser.location()),
            );
        },
    };

    // Parse range
    let ranged = match parser.peek() {
        Token::Symbol(Symbol::Range, _) => true,
        _ => false,
    };
    if ranged {
        if !list_type.same(&Type::Int) {
            return Err(
                parser_error(
                    "range syntax is only allowed for lists of integers",
                    parser.location(),
                ),
            );
        }
        let start_value = if let Element::Value(Value::Integer(n)) = first_element {
            n
        } else {
            return Err(parser_error("range start must be an integer", parser.location()));
        };

        parser.advance();  // Consume ..

        let end_value = match parser.advance() {
            Token::Value(Value::Integer(n), _) => *n,
            token => {
                let text = token.to_string();
                return Err(
                    found(
                        "expected integer after '..', found `",
                        text.as_str(),
                        "`",
                        parser.location(),
                    ),
                );
            },
        };
        let elements = expand_range(start_value, end_value);
        parse_closing(parser)?;
        Ok(elements)
    } else {
        // Not a range
        let mut elements: Vec<Element> = Vec::new();
        elements.push(first_element);
        assert(elements_view(elements) =~= seq![first_element@]);
        parse_list_elements(parser, &mut elements)?;
        parse_closing(parser)?;
        Ok(elements)
    }
}

fn parse_list_elements(parser: &mut Parser, elements: &mut Vec<Element>) -> (result: Result<
    (),
    CompilerError,
>)
    requires
        old(parser).wf(),
    ensures
        final(parser).wf(),
        final(parser).tokens() == old(parser).tokens(),
        final(parser).position() >= old(parser).position(),
        match elements_at(
            old(parser).tokens(),
            old(parser).position(),
            elements_view(*old(elements)),
        ) {
            Ok((found, next)) => {
                &&& result is Ok
                &&& elements_view(*final(elements)) == found
                &&& final(parser).position() == next
            },
            Err(error) => {
                &&& result matches Err(e)
                &&& e@ == error
                &&& error_line(error) == location(final(parser).tokens(), final(parser).position())
            },
        },
{
    let ghost all = parser.tokens();
    let ghost start = parser.position();
    loop
        invariant
            parser.wf(),
            parser.tokens() == all,
            all == old(parser).tokens(),
            start == old(parser).position(),
            parser.position() >= start,
            elements_at(all, start, elements_view(*old(elements))) == elements_at(
                all,
                parser.position(),
                elements_view(*elements),
            ),
        ensures
            is_symbol(all, parser.position(), Symbol::RB),
        decreases left(all, parser.position()),
    {
        let closing = match parser.peek() {
            Token::Symbol(Symbol::RB, _) => true,
            _ => false,
        };
        if closing {
            break ;
        }
        let ghost before = elements_view(*elements);
        let element = match parser.advance() {
            Token::Value(value, _) => Element::Value(value.copy()),
            Token::Identifier(id, _) => Element::Identifier(id.clone()),
            Token::Symbol(Symbol::EOF, _) => {
                return Err(expected("closing bracket", parser.location()));
            },
            token => {
                let text = token.to_string();
                return Err(
                    found("unexpected token in list: `", text.as_str(), "`", parser.location()),
                );
            },
        };
        elements.push(element);
        assert(elements_view(*elements) =~= before.push(element@));
    }
    Ok(())
}

fn parse_arguments(parser: &mut Parser) -> (result: Result<Vec<Argument>, CompilerError>)
    requires
        old(parser).wf(),
    ensures
        final(parser).wf(),
        final(parser).tokens() == old(parser).tokens(),
        final(parser).position() >= old(parser).position(),
        match arguments_at(old(parser).tokens(), old(parser).position(), Seq::empty()) {
            Ok((arguments, next)) => {
                &&& result matches Ok(found)
                &&& arguments_view(found) == arguments
                &&& final(parser).position() == next
            },
            Err(error) => result matches Err(e) && e@ == error,
        },
    decreases left(old(parser).tokens(), old(parser).position()), 3nat,
{
    let ghost all = parser.tokens();
    let ghost start = parser.position();
    let mut args: Vec<Argument> = Vec::new();
    assert(arguments_view(args) =~= Seq::<ArgumentView>::empty());
    loop
        invariant_except_break
            arguments_at(all, start, Seq::empty()) == arguments_at(
                all,
                parser.position(),
                arguments_view(args),
            ),
        invariant
            parser.wf(),
            parser.tokens() == all,
            all == old(parser).tokens(),
            start == old(parser).position(),
            parser.position() >= start,
        ensures
            parser.wf(),
            parser.tokens() == all,
            parser.position() >= start,
            arguments_at(all, start, Seq::empty()) == Ok::<(Seq<ArgumentView>, nat), ErrorView>(
                (arguments_view(args), parser.position()),
            ),
        decreases left(all, parser.position()),
    {
        let ghost before = arguments_view(args);
        proof {
            parser.lemma_bounds();
        }
        match parse_argument(parser)? {
            Some(arg) => {
                proof {
                    parser.lemma_bounds();
                }
                args.push(arg);
                assert(arguments_view(args) =~= before.push(arg@));
            },
            None => {
                break ;
            },
        }
    }
    Ok(args)
}

/// One more argument, or nothing at the end of the argument list.
fn parse_argument(parser: &mut Parser) -> (result: Result<Option<Argument>, CompilerError>)
    requires
        old(parser).wf(),
    ensures
        final(parser).wf(),
        final(parser).tokens() == old(parser).tokens(),
        final(parser).position() >= old(parser).position(),
        match argument_at(old(parser).tokens(), old(parser).position()) {
            Ok((Some(argument), next)) => {
                &&& result matches Ok(Some(found))
                &&& found@ == argument
                &&& final(parser).position() == next
                &&& next > old(parser).position()
            },
            Ok((None, next)) => {
                &&& result matches Ok(None)
                &&& final(parser).position() == next
            },
            Err(error) => result matches Err(e) && e@ == error,
        },
    decreases left(old(parser).tokens(), old(parser).position()), 2nat,
{
    let line = parser.location();
    match parser.peek() {
        Token::Operator(op, _) => {
            let op = *op;
            if op == Operator::Sub || op == Operator::Add {
                let operation = parse_operation(parser)?;
                Ok(Some(Argument::ParenExpression(operation)))
            } else {
                let text = op.to_string();
                Err(
                    found(
                        "unexpected token in function arguments: `",
                        text.as_str(),
                        "`",
                        parser.location(),
                    ),
                )
            }
        },
        Token::Value(_, _) => match parser.advance() {
            Token::Value(value, _) => Ok(Some(Argument::Value(value.copy()))),
            _ => unreached(),
        },
        Token::Identifier(_, _) => match parser.advance() {
            Token::Identifier(id, _) => {
                let l_id = LocatedIdentifier { id: id.clone(), line };
                Ok(Some(Argument::Identifier(l_id)))
            },
            _ => unreached(),
        },
        Token::Symbol(Symbol::LP, _) => {
            let argument = parse_paren_expression(parser)?;
            Ok(Some(argument))
        },
        Token::Symbol(Symbol::RP, _) => Ok(None),
        Token::Symbol(Symbol::Pipe, _) => Ok(None),
        Token::Symbol(Symbol::EOF, _) => Ok(None),
        Token::Type(_, _) => {
            if let Ok(Expression::Value(Value::List(list))) = parse_list(parser) {
                Ok(Some(Argument::Value(Value::List(list))))
            } else {
                Err(parser_error("expected list expression", parser.location()))
            }
        },
        Token::Symbol(Symbol::EOL, _) => {
            parser.advance();
            Ok(None)
        },
        Token::Conditional(tokens::Conditional::Then, _) => Ok(None),
        Token::Conditional(tokens::Conditional::Else, _) => Ok(None),
        token => {
            let text = token.to_string();
            Err(
                found(
                    "unexpected token in function arguments: `",
                    text.as_str(),
                    "`",
                    parser.location(),
                ),
            )
        },
    }
}

fn parse_conditional(parser: &mut Parser) -> (result: Result<Expression, CompilerError>)
    requires
        old(parser).wf(),
        is_keyword(old(parser).tokens(), old(parser).position(), tokens::Conditional::If),
    ensures
        final(parser).wf(),
        final(parser).tokens() == old(parser).tokens(),
        final(parser).position() >= old(parser).position(),
        match conditional_at(
            old(parser).tokens(),
            old(parser).position() + 1,
            location(old(parser).tokens(), old(parser).position()),
        ) {
            Ok((expression, next)) => {
                &&& result matches Ok(x)
                &&& x@ == expression
                &&& final(parser).position() == next
                &&& next > old(parser).position()
            },
            Err(error) => result matches Err(e) && e@ == error,
        },
    decreases left(old(parser).tokens(), old(parser).position()), 1nat,
{
    let line = parser.location();
    parser.advance();
    let condition = parse_expression(parser)?;

    // Allow `then` on new line
    let broken = match parser.peek() {
        Token::Symbol(Symbol::EOL, _) => true,
        _ => false,
    };
    if broken {
        parser.advance();
    }
    let at_then = match parser.advance() {
        Token::Conditional(tokens::Conditional::Then, _) => true,
        _ => false,
    };
    if !at_then {
        return Err(expected("then", line));
    }
    let then = parse_expression(parser)?;

    // Allow `else` on new line
    let broken = match parser.peek() {
        Token::Symbol(Symbol::EOL, _) => true,
        _ => false,
    };
    if broken {
        parser.advance();
    }
    let at_else = match parser.advance() {
        Token::Conditional(tokens::Conditional::Else, _) => true,
        _ => false,
    };
    if !at_else {
        return Err(expected("else", parser.location()));
    }
    let otherwise = parse_expression(parser)?;

    let conditional = Conditional {
        condition: Box::new(condition),
        then: Box::new(then),
        otherwise: Box::new(otherwise),
        line,
    };
    Ok(Expression::Conditional(conditional))
}

fn parse_paren_expression(parser: &mut Parser) -> (result: Result<Argument, CompilerError>)
    requires
        old(parser).wf(),
        is_symbol(old(parser).tokens(), old(parser).position(), Symbol::LP),
    ensures
        final(parser).wf(),
        final(parser).tokens() == old(parser).tokens(),
        final(parser).position() >= old(parser).position(),
        match paren_expression_at(old(parser).tokens(), old(parser).position() + 1) {
            Ok((argument, next)) => {
                &&& result matches Ok(x)
                &&& x@ == argument
                &&& final(parser).position() == next
                &&& next > old(parser).position()
            },
            Err(error) => result matches Err(e) && e@ == error,
        },
    decreases left(old(parser).tokens(), old(parser).position()), 1nat,
{
    parser.advance();
    let expression = parse_expression(parser)?;
    let closed = match parser.advance() {
        Token::Symbol(Symbol::RP, _) => true,
        _ => false,
    };
    if !closed {
        return Err(parser_error("expected closing parenthesis", parser.location()));
    }
    Ok(Argument::ParenExpression(expression))
}

} // verus!
