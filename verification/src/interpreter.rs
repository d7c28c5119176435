//! The interpreter: what a program evaluates to.
//!
//! A program is evaluated by evaluating its function `main` in a scope that
//! holds all its functions. The crate does no fractional arithmetic: where a
//! program needs some, the evaluation takes it from a table of facts or stops
//! and names the fact that is missing (see `fractions`).

use crate::errors::CompilerError;
use crate::grammar::Program;
use crate::interpreter::environment::{scope_view, Binding, BindingView, Environment};
use crate::interpreter::fractions::{Fractions, Query};
use crate::interpreter::meaning::{
    binds, failed, program_value, root_scope_from, Evaluated, HaltView,
};
use crate::tokens::{Identifier, Value};
use vstd::prelude::*;
use vstd::string::*;

pub mod arguments;
pub mod calls;
pub mod data;
pub mod environment;
pub mod expressions;
pub mod fractions;
pub mod functions;
pub mod laws;
pub mod meaning;
pub mod operations;

verus! {

/// Why an evaluation stopped without a value: an error, or a question on
/// fractional numbers that the table of facts does not answer.
#[derive(Debug, PartialEq)]
pub enum Halt {
    Failed(CompilerError),
    Needs(Query),
}

impl View for Halt {
    type V = HaltView;

    open spec fn view(&self) -> HaltView {
        match self {
            Halt::Failed(e) => HaltView::Failed(e@),
            Halt::Needs(q) => HaltView::Needs(q@),
        }
    }
}

/// How deep functions may be entered inside one another.
pub const RECURSION_LIMIT: usize = 200;

/// `result` is the outcome `want`.
pub open spec fn agrees(result: Result<Option<Value>, Halt>, want: Evaluated) -> bool {
    match want {
        Ok(value) => result matches Ok(Some(v)) && v@ == value,
        Err(halt) => result matches Err(h) && h@ == halt,
    }
}

/// `result` is the outcome `want`.
pub open spec fn gives(result: Result<Value, Halt>, want: Evaluated) -> bool {
    match want {
        Ok(value) => result matches Ok(v) && v@ == value,
        Err(halt) => result matches Err(h) && h@ == halt,
    }
}

/// An interpreter error.
pub fn failure(message: &str, line: usize) -> (halt: Halt)
    ensures
        halt@ == failed(message@, line),
{
    Halt::Failed(CompilerError::Interpreter(String::from_str(message), line))
}

fn defined(scope: &Vec<Binding>, id: &Identifier) -> (found: bool)
    ensures
        found == binds(scope_view(scope@), id@),
{
    let mut i: usize = 0;
    while i < scope.len()
        invariant
            i <= scope.len(),
            forall|k: int| 0 <= k < i ==> (#[trigger] scope_view(scope@)[k]).name != id@,
        decreases scope.len() - i,
    {
        if scope[i].name == *id {
            assert(scope_view(scope@)[i as int].name == id@);
            return true;
        }
        i += 1;
    }
    false
}

/// What `program` evaluates to, given the facts on fractional numbers in
/// `fractions`. Functions may be entered inside one another up to
/// `RECURSION_LIMIT` deep.
pub fn evaluate(program: Program, fractions: &Fractions) -> (result: Result<Option<Value>, Halt>)
    ensures
        agrees(result, program_value(fractions@, program@, RECURSION_LIMIT as nat)),
{
    evaluate_within(program, fractions, RECURSION_LIMIT)
}

/// What `program` evaluates to, given the facts on fractional numbers in
/// `fractions`, where functions may be entered inside one another up to
/// `depth` deep.
pub fn evaluate_within(program: Program, fractions: &Fractions, depth: usize) -> (result: Result<
    Option<Value>,
    Halt,
>)
    ensures
        agrees(result, program_value(fractions@, program@, depth as nat)),
{
    let enclosing = Environment::new(Vec::new());
    let ghost functions = program@;
    let mut scope: Vec<Binding> = Vec::new();
    assert(scope_view(scope@) =~= Seq::<BindingView>::empty());
    let all = program.functions;
    for f in it: all
        invariant
            functions == program@,
            functions == Seq::new(it.seq().len(), |k: int| it.seq()[k]@),
            root_scope_from(functions, 0, Seq::empty()) == root_scope_from(
                functions,
                it.index() as nat,
                scope_view(scope@),
            ),
    {
        let key = f.definition.name.id.clone();
        if defined(&scope, &key) {
            let mut message = String::from_str("variable `");
            message.append(key.as_str());
            message.append("` already defined");
            return Err(Halt::Failed(CompilerError::Interpreter(message, f.definition.name.line)));
        }
        let ghost before = scope_view(scope@);
        let binding = Binding { name: key, function: f };
        scope.push(binding);
        assert(scope_view(scope@) =~= before.push(binding@));
    }
    assert(enclosing@.scope =~= Seq::<BindingView>::empty());
    let env = Environment::with_enclosing(scope, &enclosing);
    let name = String::from_str("main");
    let main = match env.get(&name) {
        Some(main) => main,
        None => {
            return Err(failure("main function not found", 0));
        },
    };
    functions::eval(&env, main, fractions, depth)
}

} // verus!
