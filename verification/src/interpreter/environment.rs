//! Scopes: what names mean where.
//!
//! An environment is a scope and, around it, the environment it was opened
//! in. Nothing in it changes once it is made: a scope inside hides the names
//! it binds and leaves the scopes around it as they are.

use crate::grammar::{Function, FunctionView};
use crate::tokens::Identifier;
use vstd::prelude::*;
use vstd::string::*;

verus! {

/// A name and the function it stands for.
#[derive(Debug)]
pub struct Binding {
    pub name: Identifier,
    pub function: Function,
}

/// A scope and the environment around it.
pub struct Environment<'a> {
    scope: Vec<Binding>,
    enclosing: Option<&'a Environment<'a>>,
}

/// The mathematical content of a binding.
pub struct BindingView {
    pub name: Seq<char>,
    pub function: FunctionView,
}

/// The mathematical content of an environment.
pub struct EnvironmentView {
    pub scope: Seq<BindingView>,
    pub enclosing: Option<Box<EnvironmentView>>,
}

impl View for Binding {
    type V = BindingView;

    open spec fn view(&self) -> BindingView {
        BindingView { name: self.name@, function: self.function@ }
    }
}

/// The bindings of a scope.
pub open spec fn scope_view(scope: Seq<Binding>) -> Seq<BindingView> {
    Seq::new(scope.len(), |i: int| scope[i]@)
}

/// What the first `count` bindings of a scope make of `id`: the function of
/// the last of them that binds it.
pub open spec fn find_among(scope: Seq<BindingView>, id: Seq<char>, count: nat) -> Option<
    FunctionView,
>
    decreases count,
{
    if count == 0 || count > scope.len() {
        None
    } else if scope[count - 1].name == id {
        Some(scope[count - 1].function)
    } else {
        find_among(scope, id, (count - 1) as nat)
    }
}

/// What a scope makes of `id`.
pub open spec fn find(scope: Seq<BindingView>, id: Seq<char>) -> Option<FunctionView> {
    find_among(scope, id, scope.len())
}

/// What `id` means in `env`: what its own scope makes of it or, where that
/// scope does not bind it, what it means in the environment around.
pub open spec fn lookup(env: EnvironmentView, id: Seq<char>) -> Option<FunctionView>
    decreases env,
{
    match find(env.scope, id) {
        Some(function) => Some(function),
        None => match env.enclosing {
            Some(around) => lookup(*around, id),
            None => None,
        },
    }
}

/// The environment that `scope` opens inside `around`.
pub open spec fn inside(around: EnvironmentView, scope: Seq<BindingView>) -> EnvironmentView {
    EnvironmentView { scope, enclosing: Some(Box::new(around)) }
}

/// The environment of one scope with nothing around it.
pub open spec fn outermost(scope: Seq<BindingView>) -> EnvironmentView {
    EnvironmentView { scope, enclosing: None }
}

impl<'a> Environment<'a> {
    /// The mathematical content of an environment.
    pub closed spec fn content(self) -> EnvironmentView
        decreases self,
    {
        EnvironmentView {
            scope: scope_view(self.scope@),
            enclosing: match self.enclosing {
                Some(around) => Some(Box::new(around.content())),
                None => None,
            },
        }
    }

    /// The environment of one scope with nothing around it.
    pub fn new(scope: Vec<Binding>) -> (env: Self)
        ensures
            env@ == outermost(scope_view(scope@)),
    {
        Self { scope, enclosing: None }
    }

    /// The environment that `scope` opens inside `enclosing`.
    pub fn with_enclosing(scope: Vec<Binding>, enclosing: &'a Environment<'a>) -> (env: Self)
        ensures
            env@ == inside(enclosing@, scope_view(scope@)),
    {
        Self { scope, enclosing: Some(enclosing) }
    }

    /// What `id` means here: the function it is bound to in the innermost
    /// scope that binds it.
    pub fn get(&self, id: &Identifier) -> (function: Option<&Function>)
        ensures
            match lookup(self@, id@) {
                Some(found) => function matches Some(f) && f@ == found,
                None => function is None,
            },
        decreases self,
    {
        let mut i: usize = self.scope.len();
        while i > 0
            invariant
                i <= self.scope.len(),
                find(self@.scope, id@) == find_among(self@.scope, id@, i as nat),
            decreases i,
        {
            if self.scope[i - 1].name == *id {
                return Some(&self.scope[i - 1].function);
            }
            i -= 1;
        }
        match self.enclosing {
            Some(env) => env.get(id),
            None => None,
        }
    }
}

impl<'a> View for Environment<'a> {
    type V = EnvironmentView;

    open spec fn view(&self) -> EnvironmentView {
        self.content()
    }
}

/// A scope inside hides the names it binds and no others: a name that the
/// scope binds means what the scope makes of it, and every other name means
/// what it means around the scope. The environment around is the same value
/// before and after, so nothing that happens inside reaches it.
pub proof fn lemma_scope_shadows(around: EnvironmentView, scope: Seq<BindingView>, id: Seq<char>)
    ensures
        find(scope, id) is Some ==> lookup(inside(around, scope), id) == find(scope, id),
        find(scope, id) is None ==> lookup(inside(around, scope), id) == lookup(around, id),
        inside(around, scope).enclosing == Some(Box::new(around)),
{
}

} // verus!
