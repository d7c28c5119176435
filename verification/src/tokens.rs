//! The vocabulary of the lexer: tokens and the values, types and operators
//! they carry.

use crate::grammar::{element_text, element_view, elements_text, list_view, Element, List, ListView};
use crate::text::{contains_char, has_char, int_text, push_i64};
use vstd::prelude::*;
use vstd::string::*;

verus! {

/// A name as written in the source.
pub type Identifier = String;

/// One lexical unit together with the line it starts on (lines count from 1).
#[derive(Debug, PartialEq, Clone)]
pub enum Token {
    Identifier(Identifier, usize),
    Symbol(Symbol, usize),
    Operator(Operator, usize),
    Type(Type, usize),
    Value(Value, usize),
    Conditional(Conditional, usize),
}

/// A name and the line it was written on.
#[derive(Debug, PartialEq, Clone)]
pub struct LocatedIdentifier {
    pub id: Identifier,
    pub line: usize,
}

/// The punctuation of the language, the end of a line and the end of input.
#[derive(Debug, PartialEq, Eq, Clone, Copy, Structural)]
pub enum Symbol {
    LP,
    RP,
    LB,
    RB,
    Comment,
    Assign,
    Return,
    Pipe,
    Bar,
    Range,
    EOL,
    EOF,
}

/// The types of the language; a list type names the type of its elements.
#[derive(Debug, PartialEq, Eq)]
pub enum Type {
    Int,
    Frac,
    Str,
    Bool,
    Void,
    List(Box<Type>),
}

/// The operators of the language.
#[derive(Debug, PartialEq, Eq, Clone, Copy, Structural)]
pub enum Operator {
    Add,
    Sub,
    Mul,
    Div,
    Eq,
    Neq,
    Gt,
    Lt,
    Gte,
    Lte,
    Or,
    And,
    Not,
}

/// The classes of operators, which differ in the arguments they take.
#[derive(Debug, PartialEq, Eq, Clone, Copy, Structural)]
pub enum OperatorType {
    Unary,
    Binary,
    Relational,
    Logical,
}

/// A runtime value. A fractional number is carried as its decimal text: the
/// crate never computes with fractional numbers itself.
#[derive(Debug, PartialEq)]
pub enum Value {
    Integer(i64),
    Fractional(String),
    String(String),
    Boolean(bool),
    List(List),
}

/// The keywords of a conditional.
#[derive(Debug, PartialEq, Eq, Clone, Copy, Structural)]
pub enum Conditional {
    If,
    Then,
    Else,
}

/// The mathematical content of a token.
pub enum TokenView {
    Identifier(Seq<char>, usize),
    Symbol(Symbol, usize),
    Operator(Operator, usize),
    Type(Type, usize),
    Value(ValueView, usize),
    Conditional(Conditional, usize),
}

/// The mathematical content of a located name.
pub struct NameView {
    pub id: Seq<char>,
    pub line: usize,
}

/// The mathematical content of a value.
pub enum ValueView {
    Integer(i64),
    Fractional(Seq<char>),
    String(Seq<char>),
    Boolean(bool),
    List(ListView),
}

/// The mathematical content of a value.
pub open spec fn value_view(v: Value) -> ValueView
    decreases v,
{
    match v {
        Value::Integer(i) => ValueView::Integer(i),
        Value::Fractional(t) => ValueView::Fractional(t@),
        Value::String(t) => ValueView::String(t@),
        Value::Boolean(b) => ValueView::Boolean(b),
        Value::List(l) => ValueView::List(list_view(l)),
    }
}

impl View for Value {
    type V = ValueView;

    open spec fn view(&self) -> ValueView {
        value_view(*self)
    }
}

impl View for Token {
    type V = TokenView;

    open spec fn view(&self) -> TokenView {
        match self {
            Token::Identifier(id, line) => TokenView::Identifier(id@, *line),
            Token::Symbol(s, line) => TokenView::Symbol(*s, *line),
            Token::Operator(o, line) => TokenView::Operator(*o, *line),
            Token::Type(t, line) => TokenView::Type(*t, *line),
            Token::Value(v, line) => TokenView::Value(v@, *line),
            Token::Conditional(c, line) => TokenView::Conditional(*c, *line),
        }
    }
}

impl View for LocatedIdentifier {
    type V = NameView;

    open spec fn view(&self) -> NameView {
        NameView { id: self.id@, line: self.line }
    }
}

/// The views of the items of a sequence, in order.
pub open spec fn views<T: View>(items: Seq<T>) -> Seq<T::V> {
    Seq::new(items.len(), |i: int| items[i]@)
}

/// How a symbol is written.
pub open spec fn symbol_text(s: Symbol) -> Seq<char> {
    match s {
        Symbol::LP => "("@,
        Symbol::RP => ")"@,
        Symbol::LB => "["@,
        Symbol::RB => "]"@,
        Symbol::Comment => "#"@,
        Symbol::Assign => "="@,
        Symbol::Return => "->"@,
        Symbol::Pipe => ">>"@,
        Symbol::Bar => "|"@,
        Symbol::Range => ".."@,
        Symbol::EOL => "\n"@,
        Symbol::EOF => ""@,
    }
}

/// How an operator is written.
pub open spec fn operator_text(o: Operator) -> Seq<char> {
    match o {
        Operator::Add => "+"@,
        Operator::Sub => "-"@,
        Operator::Mul => "*"@,
        Operator::Div => "/"@,
        Operator::Eq => "=="@,
        Operator::Neq => "!="@,
        Operator::Gt => ">"@,
        Operator::Lt => "<"@,
        Operator::Gte => ">="@,
        Operator::Lte => "<="@,
        Operator::Or => "||"@,
        Operator::And => "&&"@,
        Operator::Not => "!"@,
    }
}

/// How a type is written; a list type puts its element type in brackets.
pub open spec fn type_text(t: Type) -> Seq<char>
    decreases t,
{
    match t {
        Type::Int => "Int"@,
        Type::Frac => "Frac"@,
        Type::Str => "Str"@,
        Type::Bool => "Bool"@,
        Type::Void => "Void"@,
        Type::List(inner) => "["@ + type_text(*inner) + "]"@,
    }
}

/// How a keyword of a conditional is written.
pub open spec fn conditional_text(c: Conditional) -> Seq<char> {
    match c {
        Conditional::If => "if"@,
        Conditional::Then => "then"@,
        Conditional::Else => "else"@,
    }
}

/// How a fractional number is shown: its text, with `.0` added when the text
/// holds no point.
pub open spec fn fractional_text(t: Seq<char>) -> Seq<char> {
    if has_char(t, '.') {
        t
    } else {
        t + ".0"@
    }
}

/// How a value is shown. A string is shown without quotes, a list as its
/// elements between brackets, separated by a comma and a space.
pub open spec fn value_text(v: ValueView) -> Seq<char>
    decreases v, 0nat,
{
    match v {
        ValueView::Integer(i) => int_text(i as int),
        ValueView::Fractional(t) => fractional_text(t),
        ValueView::String(t) => t,
        ValueView::Boolean(b) => if b {
            "true"@
        } else {
            "false"@
        },
        ValueView::List(l) => "["@ + elements_text(l.elements, l.elements.len()) + "]"@,
    }
}

/// How a token is written.
pub open spec fn token_text(t: TokenView) -> Seq<char> {
    match t {
        TokenView::Identifier(id, _) => id,
        TokenView::Symbol(s, _) => symbol_text(s),
        TokenView::Operator(o, _) => operator_text(o),
        TokenView::Type(ty, _) => type_text(ty),
        TokenView::Value(v, _) => value_text(v),
        TokenView::Conditional(c, _) => conditional_text(c),
    }
}

/// The type of a value. The type of a list is the list type over its declared
/// element type.
pub open spec fn type_of(v: ValueView) -> Type {
    match v {
        ValueView::Integer(_) => Type::Int,
        ValueView::Fractional(_) => Type::Frac,
        ValueView::String(_) => Type::Str,
        ValueView::Boolean(_) => Type::Bool,
        ValueView::List(l) => Type::List(Box::new(l.list_type)),
    }
}

/// The class an operator belongs to, which decides how many arguments it takes.
pub open spec fn class_of(o: Operator) -> OperatorType {
    match o {
        Operator::Add | Operator::Sub | Operator::Mul | Operator::Div => OperatorType::Binary,
        Operator::Gt | Operator::Lt | Operator::Gte | Operator::Lte => OperatorType::Relational,
        Operator::Eq | Operator::Neq | Operator::And | Operator::Or => OperatorType::Logical,
        Operator::Not => OperatorType::Unary,
    }
}

/// The words that say how many arguments a class of operators takes.
pub open spec fn arity_text(t: OperatorType) -> Seq<char> {
    match t {
        OperatorType::Unary => "exactly 1 argument"@,
        OperatorType::Binary => "at least 2 argument"@,
        OperatorType::Relational => "exactly 2 arguments"@,
        OperatorType::Logical => "exactly 2 arguments"@,
    }
}

impl OperatorType {
    /// The words that say how many arguments operators of this class take.
    pub fn arity(&self) -> (words: String)
        ensures
            words@ == arity_text(*self),
    {
        match self {
            OperatorType::Unary => String::from_str("exactly 1 argument"),
            OperatorType::Binary => String::from_str("at least 2 argument"),
            OperatorType::Relational => String::from_str("exactly 2 arguments"),
            OperatorType::Logical => String::from_str("exactly 2 arguments"),
        }
    }
}

impl Operator {
    /// The class this operator belongs to.
    pub fn operator_type(&self) -> (class: OperatorType)
        ensures
            class == class_of(*self),
    {
        match self {
            Operator::Add | Operator::Sub | Operator::Mul | Operator::Div => OperatorType::Binary,
            Operator::Gt | Operator::Lt | Operator::Gte | Operator::Lte => {
                OperatorType::Relational
            },
            Operator::Eq | Operator::Neq | Operator::And | Operator::Or => OperatorType::Logical,
            Operator::Not => OperatorType::Unary,
        }
    }

    /// How this is written.
    pub fn to_string(&self) -> (text: String)
        ensures
            text@ == operator_text(*self),
    {
        match self {
            Operator::Add => String::from_str("+"),
            Operator::Sub => String::from_str("-"),
            Operator::Mul => String::from_str("*"),
            Operator::Div => String::from_str("/"),
            Operator::Eq => String::from_str("=="),
            Operator::Neq => String::from_str("!="),
            Operator::Gt => String::from_str(">"),
            Operator::Lt => String::from_str("<"),
            Operator::Gte => String::from_str(">="),
            Operator::Lte => String::from_str("<="),
            Operator::Or => String::from_str("||"),
            Operator::And => String::from_str("&&"),
            Operator::Not => String::from_str("!"),
        }
    }
}

impl Symbol {
    /// How this is written.
    pub fn to_string(&self) -> (text: String)
        ensures
            text@ == symbol_text(*self),
    {
        match self {
            Symbol::LP => String::from_str("("),
            Symbol::RP => String::from_str(")"),
            Symbol::LB => String::from_str("["),
            Symbol::RB => String::from_str("]"),
            Symbol::Comment => String::from_str("#"),
            Symbol::Assign => String::from_str("="),
            Symbol::Return => String::from_str("->"),
            Symbol::Pipe => String::from_str(">>"),
            Symbol::Bar => String::from_str("|"),
            Symbol::Range => String::from_str(".."),
            Symbol::EOL => String::from_str("\n"),
            Symbol::EOF => String::from_str(""),
        }
    }
}

impl Conditional {
    /// How this is written.
    pub fn to_string(&self) -> (text: String)
        ensures
            text@ == conditional_text(*self),
    {
        match self {
            Conditional::If => String::from_str("if"),
            Conditional::Then => String::from_str("then"),
            Conditional::Else => String::from_str("else"),
        }
    }
}

impl Clone for Type {
    fn clone(&self) -> (same: Type)
        ensures
            same == *self,
    {
        self.copy()
    }
}

impl Type {
    /// A copy of this type.
    pub fn copy(&self) -> (same: Type)
        ensures
            same == *self,
        decreases self,
    {
        match self {
            Type::Int => Type::Int,
            Type::Frac => Type::Frac,
            Type::Str => Type::Str,
            Type::Bool => Type::Bool,
            Type::Void => Type::Void,
            Type::List(inner) => Type::List(Box::new(inner.copy())),
        }
    }

    /// Whether two types are the same type.
    pub fn same(&self, other: &Type) -> (equal: bool)
        ensures
            equal == (*self == *other),
        decreases self,
    {
        match (self, other) {
            (Type::Int, Type::Int) => true,
            (Type::Frac, Type::Frac) => true,
            (Type::Str, Type::Str) => true,
            (Type::Bool, Type::Bool) => true,
            (Type::Void, Type::Void) => true,
            (Type::List(a), Type::List(b)) => a.same(b),
            _ => false,
        }
    }

    /// Appends the written form of this type to `out`.
    pub fn write(&self, out: &mut String)
        ensures
            final(out)@ == old(out)@ + type_text(*self),
        decreases self,
    {
        match self {
            Type::Int => out.append("Int"),
            Type::Frac => out.append("Frac"),
            Type::Str => out.append("Str"),
            Type::Bool => out.append("Bool"),
            Type::Void => out.append("Void"),
            Type::List(inner) => {
                out.append("[");
                inner.write(out);
                out.append("]");
                assert(final(out)@ =~= old(out)@ + ("["@ + type_text(**inner) + "]"@));
            },
        }
    }

    /// How this is written.
    pub fn to_string(&self) -> (text: String)
        ensures
            text@ == type_text(*self),
    {
        let mut out = String::new();
        self.write(&mut out);
        assert(out@ =~= type_text(*self));
        out
    }
}

impl Clone for Value {
    fn clone(&self) -> (same: Value)
        ensures
            same@ == self@,
    {
        self.copy()
    }
}

impl Value {
    /// The type of this value.
    pub fn get_type(&self) -> (t: Type)
        ensures
            t == type_of(self@),
    {
        match self {
            Value::Integer(_) => Type::Int,
            Value::Fractional(_) => Type::Frac,
            Value::String(_) => Type::Str,
            Value::Boolean(_) => Type::Bool,
            Value::List(list) => Type::List(Box::new(list.list_type.copy())),
        }
    }

    /// A copy of this value.
    pub fn copy(&self) -> (same: Value)
        ensures
            same@ == self@,
        decreases self,
    {
        match self {
            Value::Integer(i) => Value::Integer(*i),
            Value::Fractional(t) => Value::Fractional(t.clone()),
            Value::String(t) => Value::String(t.clone()),
            Value::Boolean(b) => Value::Boolean(*b),
            Value::List(list) => Value::List(list.copy()),
        }
    }

    /// Appends the shown form of this value to `out`.
    pub fn write(&self, out: &mut String)
        ensures
            final(out)@ == old(out)@ + value_text(self@),
        decreases self,
    {
        match self {
            Value::Integer(i) => push_i64(out, *i),
            Value::Fractional(t) => {
                out.append(t.as_str());
                if !contains_char(t.as_str(), '.') {
                    out.append(".0");
                    assert(final(out)@ =~= old(out)@ + (t@ + ".0"@));
                }
            },
            Value::String(t) => out.append(t.as_str()),
            Value::Boolean(b) => {
                if *b {
                    out.append("true");
                } else {
                    out.append("false");
                }
            },
            Value::List(list) => {
                out.append("[");
                let ghost shown = list@.elements;
                let mut i: usize = 0;
                while i < list.elements.len()
                    invariant
                        i <= list.elements.len(),
                        decreases_to!(self => list.elements),
                        shown == list@.elements,
                        out@ == old(out)@ + "["@ + elements_text(shown, i as nat),
                    decreases list.elements.len() - i,
                {
                    let ghost before = out@;
                    if i > 0 {
                        out.append(", ");
                    }
                    let ghost separated = out@;
                    match &list.elements[i] {
                        Element::Value(v) => v.write(out),
                        Element::Identifier(id) => out.append(id.as_str()),
                    }
                    proof {
                        assert(shown.len() == list.elements.len());
                        assert(shown[i as int] == element_view(list.elements[i as int]));
                        assert(out@ == separated + element_text(shown[i as int]));
                        if i == 0 {
                            assert(elements_text(shown, 0) =~= Seq::<char>::empty());
                            assert(separated =~= old(out)@ + "["@);
                        } else {
                            assert(separated == before + ", "@);
                        }
                        assert(out@ =~= old(out)@ + "["@ + elements_text(shown, (i + 1) as nat));
                    }
                    i += 1;
                }
                out.append("]");
                assert(final(out)@ =~= old(out)@ + ("["@ + elements_text(shown, shown.len()) + "]"@));
            },
        }
    }

    /// How this value is shown.
    pub fn to_string(&self) -> (text: String)
        ensures
            text@ == value_text(self@),
    {
        let mut out = String::new();
        self.write(&mut out);
        assert(out@ =~= value_text(self@));
        out
    }
}

impl LocatedIdentifier {
    /// A copy of this name.
    pub fn copy(&self) -> (same: LocatedIdentifier)
        ensures
            same@ == self@,
    {
        LocatedIdentifier { id: self.id.clone(), line: self.line }
    }
}

impl Token {
    /// A copy of this token.
    pub fn copy(&self) -> (same: Token)
        ensures
            same@ == self@,
    {
        match self {
            Token::Identifier(id, line) => Token::Identifier(id.clone(), *line),
            Token::Symbol(s, line) => Token::Symbol(*s, *line),
            Token::Operator(o, line) => Token::Operator(*o, *line),
            Token::Type(t, line) => Token::Type(t.copy(), *line),
            Token::Value(v, line) => Token::Value(v.copy(), *line),
            Token::Conditional(c, line) => Token::Conditional(*c, *line),
        }
    }

    /// The line this token starts on.
    pub open spec fn spec_line(t: TokenView) -> usize {
        match t {
            TokenView::Identifier(_, line) => line,
            TokenView::Symbol(_, line) => line,
            TokenView::Operator(_, line) => line,
            TokenView::Type(_, line) => line,
            TokenView::Value(_, line) => line,
            TokenView::Conditional(_, line) => line,
        }
    }

    /// How this is written.
    pub fn to_string(&self) -> (text: String)
        ensures
            text@ == token_text(self@),
    {
        match self {
            Token::Identifier(id, _) => id.clone(),
            Token::Symbol(s, _) => s.to_string(),
            Token::Operator(o, _) => o.to_string(),
            Token::Type(t, _) => t.to_string(),
            Token::Value(v, _) => v.to_string(),
            Token::Conditional(c, _) => c.to_string(),
        }
    }
}

impl From<Token> for String {
    fn from(token: Token) -> (text: String)
        ensures
            text@ == token_text(token@),
    {
        token.to_string()
    }
}

/// What `String::from` gives is stated of its characters, by `from` itself.
impl vstd::std_specs::convert::FromSpecImpl<Token> for String {
    open spec fn obeys_from_spec() -> bool {
        false
    }

    open spec fn from_spec(token: Token) -> String {
        arbitrary()
    }
}

impl From<Symbol> for String {
    fn from(symbol: Symbol) -> (text: String)
        ensures
            text@ == symbol_text(symbol),
    {
        symbol.to_string()
    }
}

/// What `String::from` gives is stated of its characters, by `from` itself.
impl vstd::std_specs::convert::FromSpecImpl<Symbol> for String {
    open spec fn obeys_from_spec() -> bool {
        false
    }

    open spec fn from_spec(symbol: Symbol) -> String {
        arbitrary()
    }
}

impl From<Operator> for String {
    fn from(operator: Operator) -> (text: String)
        ensures
            text@ == operator_text(operator),
    {
        operator.to_string()
    }
}

/// What `String::from` gives is stated of its characters, by `from` itself.
impl vstd::std_specs::convert::FromSpecImpl<Operator> for String {
    open spec fn obeys_from_spec() -> bool {
        false
    }

    open spec fn from_spec(operator: Operator) -> String {
        arbitrary()
    }
}

impl From<Type> for String {
    fn from(t: Type) -> (text: String)
        ensures
            text@ == type_text(t),
    {
        t.to_string()
    }
}

/// What `String::from` gives is stated of its characters, by `from` itself.
impl vstd::std_specs::convert::FromSpecImpl<Type> for String {
    open spec fn obeys_from_spec() -> bool {
        false
    }

    open spec fn from_spec(t: Type) -> String {
        arbitrary()
    }
}

impl From<Value> for String {
    fn from(value: Value) -> (text: String)
        ensures
            text@ == value_text(value@),
    {
        value.to_string()
    }
}

/// What `String::from` gives is stated of its characters, by `from` itself.
impl vstd::std_specs::convert::FromSpecImpl<Value> for String {
    open spec fn obeys_from_spec() -> bool {
        false
    }

    open spec fn from_spec(value: Value) -> String {
        arbitrary()
    }
}

impl From<Conditional> for String {
    fn from(cond: Conditional) -> (text: String)
        ensures
            text@ == conditional_text(cond),
    {
        cond.to_string()
    }
}

/// What `String::from` gives is stated of its characters, by `from` itself.
impl vstd::std_specs::convert::FromSpecImpl<Conditional> for String {
    open spec fn obeys_from_spec() -> bool {
        false
    }

    open spec fn from_spec(cond: Conditional) -> String {
        arbitrary()
    }
}

} // verus!
