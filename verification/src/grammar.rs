//! The syntax tree: a program is an ordered list of functions, each a
//! signature paired with a definition.

use crate::tokens::{
    value_text, value_view, views, Identifier, LocatedIdentifier, NameView, Operator, Type, Value,
    ValueView,
};
use vstd::prelude::*;

verus! {

/// The functions of a program, in the order in which they are written.
#[derive(Debug)]
pub struct Program {
    pub functions: Vec<Function>,
}

/// A signature and the definition on the line behind it.
#[derive(Debug)]
pub struct Function {
    pub signature: Signature,
    pub definition: Definition,
}

/// The declared types of a function: those of its parameters and that of its
/// result.
#[derive(Debug)]
pub struct Signature {
    pub parameters: Vec<Type>,
    pub returns: Type,
}

/// The name of a function, the names of its parameters in the order of a
/// dictionary, and its body.
#[derive(Debug)]
pub struct Definition {
    pub name: LocatedIdentifier,
    pub parameters: Vec<LocatedIdentifier>,
    pub body: Expression,
}

/// A value, a call or a conditional.
#[derive(Debug)]
pub enum Expression {
    Value(Value),
    Call(Call),
    Conditional(Conditional),
}

/// An operation, the call of a function, or a pipe.
#[derive(Debug)]
pub enum Call {
    Operation(Operation),
    FunctionCall(FunctionCall),
    Pipe(Pipe),
}

/// An operator applied to arguments.
#[derive(Debug)]
pub struct Operation {
    pub operator: Operator,
    pub arguments: Vec<Argument>,
    pub line: usize,
}

/// A function called by name with arguments.
#[derive(Debug)]
pub struct FunctionCall {
    pub name: LocatedIdentifier,
    pub arguments: Vec<Argument>,
    pub line: usize,
}

/// An expression piped into the function named on the right.
#[derive(Debug)]
pub struct Pipe {
    pub left: Box<Expression>,
    pub right: Identifier,
    pub line: usize,
}

/// A condition and the two expressions it chooses between.
#[derive(Debug)]
pub struct Conditional {
    pub condition: Box<Expression>,
    pub then: Box<Expression>,
    pub otherwise: Box<Expression>,
    pub line: usize,
}

/// A value, a name, or an expression in parentheses.
#[derive(Debug)]
pub enum Argument {
    Value(Value),
    Identifier(LocatedIdentifier),
    ParenExpression(Expression),
}

/// A list literal or list value: its declared element type, its elements and
/// the line it was written on.
#[derive(Debug, PartialEq)]
pub struct List {
    pub list_type: Type,
    pub elements: Vec<Element>,
    pub line: usize,
}

/// An element of a list: a value, or a name to resolve.
#[derive(Debug, PartialEq)]
pub enum Element {
    Value(Value),
    Identifier(Identifier),
}

/// The mathematical content of a list.
pub struct ListView {
    pub list_type: Type,
    pub elements: Seq<ElementView>,
    pub line: usize,
}

/// The mathematical content of a list element.
pub enum ElementView {
    Value(ValueView),
    Identifier(Seq<char>),
}

/// The mathematical content of an expression, whatever it is built from.
pub enum ExpressionView {
    Value(ValueView),
    Operation { operator: Operator, arguments: Seq<ArgumentView>, line: usize },
    FunctionCall { name: NameView, arguments: Seq<ArgumentView>, line: usize },
    Pipe { left: Box<ExpressionView>, right: Seq<char>, line: usize },
    Conditional {
        condition: Box<ExpressionView>,
        then: Box<ExpressionView>,
        otherwise: Box<ExpressionView>,
        line: usize,
    },
}

/// The mathematical content of an argument.
pub enum ArgumentView {
    Value(ValueView),
    Identifier(NameView),
    ParenExpression(ExpressionView),
}

/// The mathematical content of a signature.
pub struct SignatureView {
    pub parameters: Seq<Type>,
    pub returns: Type,
}

/// The mathematical content of a definition.
pub struct DefinitionView {
    pub name: NameView,
    pub parameters: Seq<NameView>,
    pub body: ExpressionView,
}

/// The mathematical content of a function.
pub struct FunctionView {
    pub signature: SignatureView,
    pub definition: DefinitionView,
}

/// The mathematical content of a list element.
pub open spec fn element_view(e: Element) -> ElementView
    decreases e,
{
    match e {
        Element::Value(v) => ElementView::Value(value_view(v)),
        Element::Identifier(id) => ElementView::Identifier(id@),
    }
}

/// The mathematical content of the elements of a list.
pub open spec fn elements_view(elements: Vec<Element>) -> Seq<ElementView>
    decreases elements,
{
    Seq::new(
        elements.len() as nat,
        |i: int|
            if 0 <= i < elements.len() {
                element_view(elements[i])
            } else {
                ElementView::Identifier(Seq::empty())
            },
    )
}

/// The mathematical content of a list.
pub open spec fn list_view(l: List) -> ListView
    decreases l,
{
    ListView { list_type: l.list_type, elements: elements_view(l.elements), line: l.line }
}

/// The mathematical content of an argument.
pub open spec fn argument_view(a: Argument) -> ArgumentView
    decreases a,
{
    match a {
        Argument::Value(v) => ArgumentView::Value(v@),
        Argument::Identifier(id) => ArgumentView::Identifier(id@),
        Argument::ParenExpression(e) => ArgumentView::ParenExpression(expression_view(e)),
    }
}

/// The mathematical content of a list of arguments.
pub open spec fn arguments_view(arguments: Vec<Argument>) -> Seq<ArgumentView>
    decreases arguments,
{
    Seq::new(
        arguments.len() as nat,
        |i: int|
            if 0 <= i < arguments.len() {
                argument_view(arguments[i])
            } else {
                ArgumentView::Value(ValueView::Boolean(false))
            },
    )
}

/// The mathematical content of an expression.
pub open spec fn expression_view(e: Expression) -> ExpressionView
    decreases e,
{
    match e {
        Expression::Value(v) => ExpressionView::Value(v@),
        Expression::Call(Call::Operation(op)) => ExpressionView::Operation {
            operator: op.operator,
            arguments: arguments_view(op.arguments),
            line: op.line,
        },
        Expression::Call(Call::FunctionCall(fc)) => ExpressionView::FunctionCall {
            name: fc.name@,
            arguments: arguments_view(fc.arguments),
            line: fc.line,
        },
        Expression::Call(Call::Pipe(p)) => ExpressionView::Pipe {
            left: Box::new(expression_view(*p.left)),
            right: p.right@,
            line: p.line,
        },
        Expression::Conditional(Conditional { condition, then, otherwise, line }) => {
            ExpressionView::Conditional {
                condition: Box::new(expression_view(*condition)),
                then: Box::new(expression_view(*then)),
                otherwise: Box::new(expression_view(*otherwise)),
                line,
            }
        },
    }
}

impl View for Element {
    type V = ElementView;

    open spec fn view(&self) -> ElementView {
        element_view(*self)
    }
}

impl View for List {
    type V = ListView;

    open spec fn view(&self) -> ListView {
        list_view(*self)
    }
}

impl View for Argument {
    type V = ArgumentView;

    open spec fn view(&self) -> ArgumentView {
        argument_view(*self)
    }
}

impl View for Expression {
    type V = ExpressionView;

    open spec fn view(&self) -> ExpressionView {
        expression_view(*self)
    }
}

impl View for Operation {
    type V = ExpressionView;

    open spec fn view(&self) -> ExpressionView {
        ExpressionView::Operation {
            operator: self.operator,
            arguments: arguments_view(self.arguments),
            line: self.line,
        }
    }
}

impl View for FunctionCall {
    type V = ExpressionView;

    open spec fn view(&self) -> ExpressionView {
        ExpressionView::FunctionCall {
            name: self.name@,
            arguments: arguments_view(self.arguments),
            line: self.line,
        }
    }
}

impl View for Pipe {
    type V = ExpressionView;

    open spec fn view(&self) -> ExpressionView {
        ExpressionView::Pipe { left: Box::new(self.left@), right: self.right@, line: self.line }
    }
}

impl View for Conditional {
    type V = ExpressionView;

    open spec fn view(&self) -> ExpressionView {
        expression_view(Expression::Conditional(*self))
    }
}

impl View for Signature {
    type V = SignatureView;

    open spec fn view(&self) -> SignatureView {
        SignatureView { parameters: self.parameters@, returns: self.returns }
    }
}

impl View for Definition {
    type V = DefinitionView;

    open spec fn view(&self) -> DefinitionView {
        DefinitionView {
            name: self.name@,
            parameters: views(self.parameters@),
            body: self.body@,
        }
    }
}

impl View for Function {
    type V = FunctionView;

    open spec fn view(&self) -> FunctionView {
        FunctionView { signature: self.signature@, definition: self.definition@ }
    }
}

impl View for Program {
    type V = Seq<FunctionView>;

    open spec fn view(&self) -> Seq<FunctionView> {
        views(self.functions@)
    }
}

impl Element {
    /// A copy of this element.
    pub fn copy(&self) -> (same: Element)
        ensures
            same@ == self@,
        decreases self,
    {
        match self {
            Element::Value(v) => Element::Value(v.copy()),
            Element::Identifier(id) => Element::Identifier(id.clone()),
        }
    }
}

impl Clone for Element {
    fn clone(&self) -> (same: Element)
        ensures
            same@ == self@,
    {
        self.copy()
    }
}

impl List {
    /// A copy of this list.
    pub fn copy(&self) -> (same: List)
        ensures
            same@ == self@,
        decreases self,
    {
        let mut elements: Vec<Element> = Vec::new();
        let mut i: usize = 0;
        while i < self.elements.len()
            invariant
                i <= self.elements.len(),
                elements.len() == i,
                forall|k: int| 0 <= k < i ==> (#[trigger] elements[k])@ == self.elements[k]@,
            decreases self.elements.len() - i,
        {
            elements.push(self.elements[i].copy());
            i += 1;
        }
        let same = List { list_type: self.list_type.copy(), elements, line: self.line };
        assert(same@.elements =~= self@.elements);
        same
    }
}

impl Clone for List {
    fn clone(&self) -> (same: List)
        ensures
            same@ == self@,
    {
        self.copy()
    }
}

/// How a list element is shown: a value as itself, a name as written.
pub open spec fn element_text(e: ElementView) -> Seq<char>
    decreases e, 0nat,
{
    match e {
        ElementView::Value(v) => value_text(v),
        ElementView::Identifier(id) => id,
    }
}

/// The first `count` elements as shown, separated by a comma and a space.
pub open spec fn elements_text(elements: Seq<ElementView>, count: nat) -> Seq<char>
    decreases elements, count,
{
    if count == 0 || count > elements.len() {
        Seq::empty()
    } else if count == 1 {
        element_text(elements[0])
    } else {
        elements_text(elements, (count - 1) as nat) + ", "@ + element_text(elements[count - 1])
    }
}

/// A copy of a list of arguments.
fn copy_arguments(arguments: &Vec<Argument>) -> (same: Vec<Argument>)
    ensures
        arguments_view(same) == arguments_view(*arguments),
    decreases arguments,
{
    let mut same: Vec<Argument> = Vec::new();
    let mut i: usize = 0;
    while i < arguments.len()
        invariant
            i <= arguments.len(),
            same.len() == i,
            forall|k: int| 0 <= k < i ==> (#[trigger] same[k])@ == arguments[k]@,
        decreases arguments.len() - i,
    {
        same.push(arguments[i].copy());
        i += 1;
    }
    assert(arguments_view(same) =~= arguments_view(*arguments));
    same
}

fn copy_names(names: &Vec<LocatedIdentifier>) -> (same: Vec<LocatedIdentifier>)
    ensures
        views(same@) == views(names@),
{
    let mut same: Vec<LocatedIdentifier> = Vec::new();
    let mut i: usize = 0;
    while i < names.len()
        invariant
            i <= names.len(),
            same.len() == i,
            forall|k: int| 0 <= k < i ==> (#[trigger] same[k])@ == names[k]@,
        decreases names.len() - i,
    {
        same.push(names[i].copy());
        i += 1;
    }
    assert(views(same@) =~= views(names@));
    same
}

fn copy_types(types: &Vec<Type>) -> (same: Vec<Type>)
    ensures
        same@ == types@,
{
    let mut same: Vec<Type> = Vec::new();
    let mut i: usize = 0;
    while i < types.len()
        invariant
            i <= types.len(),
            same.len() == i,
            forall|k: int| 0 <= k < i ==> #[trigger] same[k] == types[k],
        decreases types.len() - i,
    {
        same.push(types[i].copy());
        i += 1;
    }
    assert(same@ =~= types@);
    same
}

impl Argument {
    /// A copy of this argument.
    pub fn copy(&self) -> (same: Argument)
        ensures
            same@ == self@,
        decreases self,
    {
        match self {
            Argument::Value(v) => Argument::Value(v.copy()),
            Argument::Identifier(name) => Argument::Identifier(name.copy()),
            Argument::ParenExpression(e) => Argument::ParenExpression(e.copy()),
        }
    }
}

impl Expression {
    /// A copy of this expression.
    pub fn copy(&self) -> (same: Expression)
        ensures
            same@ == self@,
        decreases self,
    {
        match self {
            Expression::Value(v) => Expression::Value(v.copy()),
            Expression::Call(Call::Operation(op)) => Expression::Call(
                Call::Operation(
                    Operation {
                        operator: op.operator,
                        arguments: copy_arguments(&op.arguments),
                        line: op.line,
                    },
                ),
            ),
            Expression::Call(Call::FunctionCall(fc)) => Expression::Call(
                Call::FunctionCall(
                    FunctionCall {
                        name: fc.name.copy(),
                        arguments: copy_arguments(&fc.arguments),
                        line: fc.line,
                    },
                ),
            ),
            Expression::Call(Call::Pipe(p)) => Expression::Call(
                Call::Pipe(
                    Pipe { left: Box::new(p.left.copy()), right: p.right.clone(), line: p.line },
                ),
            ),
            Expression::Conditional(Conditional { condition, then, otherwise, line }) => {
                Expression::Conditional(
                    Conditional {
                        condition: Box::new(condition.copy()),
                        then: Box::new(then.copy()),
                        otherwise: Box::new(otherwise.copy()),
                        line: *line,
                    },
                )
            },
        }
    }
}

impl Function {
    /// A copy of this function.
    pub fn copy(&self) -> (same: Function)
        ensures
            same@ == self@,
    {
        Function {
            signature: Signature {
                parameters: copy_types(&self.signature.parameters),
                returns: self.signature.returns.copy(),
            },
            definition: Definition {
                name: self.definition.name.copy(),
                parameters: copy_names(&self.definition.parameters),
                body: self.definition.body.copy(),
            },
        }
    }
}

impl Program {
    /// A copy of this program.
    pub fn copy(&self) -> (same: Program)
        ensures
            same@ == self@,
    {
        let mut functions: Vec<Function> = Vec::new();
        let mut i: usize = 0;
        while i < self.functions.len()
            invariant
                i <= self.functions.len(),
                functions.len() == i,
                forall|k: int| 0 <= k < i ==> (#[trigger] functions[k])@ == self.functions[k]@,
            decreases self.functions.len() - i,
        {
            functions.push(self.functions[i].copy());
            i += 1;
        }
        let same = Program { functions };
        assert(same@ =~= self@);
        same
    }
}

impl Clone for Argument {
    fn clone(&self) -> (same: Argument)
        ensures
            same@ == self@,
    {
        self.copy()
    }
}

impl Clone for Expression {
    fn clone(&self) -> (same: Expression)
        ensures
            same@ == self@,
    {
        self.copy()
    }
}

impl Clone for Function {
    fn clone(&self) -> (same: Function)
        ensures
            same@ == self@,
    {
        self.copy()
    }
}

impl Clone for Program {
    fn clone(&self) -> (same: Program)
        ensures
            same@ == self@,
    {
        self.copy()
    }
}

} // verus!
