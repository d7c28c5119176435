//! Fractional arithmetic, which this crate does not do itself.
//!
//! A fractional number is carried as decimal text. Whatever has to be computed
//! from such numbers is looked up in a table of facts that the caller
//! supplies. Where a fact is missing, the evaluation stops and names it; the
//! caller works it out, records it and evaluates again.

use crate::tokens::Operator;
use vstd::prelude::*;
use vstd::string::*;

verus! {

/// A question about fractional numbers: the negation of one, or an operator
/// applied to two. An arithmetic operator asks for a number, a comparison for
/// a truth value.
#[derive(Debug, PartialEq, Clone)]
pub enum Query {
    Negate(String),
    Apply(Operator, String, String),
}

/// What is known to answer a query: a number, as decimal text, or a truth
/// value.
#[derive(Debug, PartialEq, Clone)]
pub enum Answer {
    Number(String),
    Truth(bool),
}

/// A query and its answer.
#[derive(Debug, PartialEq, Clone)]
pub struct Fact {
    pub query: Query,
    pub answer: Answer,
}

/// The facts known about fractional numbers. Of two facts on one query the
/// later one counts.
#[derive(Debug)]
pub struct Fractions {
    facts: Vec<Fact>,
}

/// The mathematical content of a query.
pub enum QueryView {
    Negate(Seq<char>),
    Apply(Operator, Seq<char>, Seq<char>),
}

/// The mathematical content of an answer.
pub enum AnswerView {
    Number(Seq<char>),
    Truth(bool),
}

/// The mathematical content of a fact.
pub struct FactView {
    pub query: QueryView,
    pub answer: AnswerView,
}

impl View for Query {
    type V = QueryView;

    open spec fn view(&self) -> QueryView {
        match self {
            Query::Negate(t) => QueryView::Negate(t@),
            Query::Apply(o, a, b) => QueryView::Apply(*o, a@, b@),
        }
    }
}

impl View for Answer {
    type V = AnswerView;

    open spec fn view(&self) -> AnswerView {
        match self {
            Answer::Number(t) => AnswerView::Number(t@),
            Answer::Truth(b) => AnswerView::Truth(*b),
        }
    }
}

impl View for Fact {
    type V = FactView;

    open spec fn view(&self) -> FactView {
        FactView { query: self.query@, answer: self.answer@ }
    }
}

impl View for Fractions {
    type V = Seq<FactView>;

    closed spec fn view(&self) -> Seq<FactView> {
        Seq::new(self.facts.len() as nat, |i: int| self.facts[i]@)
    }
}

/// The answer that the first `count` facts give to `query`: that of the last
/// fact on it among them.
pub open spec fn answer_among(facts: Seq<FactView>, query: QueryView, count: nat) -> Option<
    AnswerView,
>
    decreases count,
{
    if count == 0 || count > facts.len() {
        None
    } else if facts[count - 1].query == query {
        Some(facts[count - 1].answer)
    } else {
        answer_among(facts, query, (count - 1) as nat)
    }
}

/// The answer that `facts` give to `query`.
pub open spec fn answer_of(facts: Seq<FactView>, query: QueryView) -> Option<AnswerView> {
    answer_among(facts, query, facts.len())
}

/// The number that `facts` give for `query`, where they answer it with one.
pub open spec fn number_of(facts: Seq<FactView>, query: QueryView) -> Option<Seq<char>> {
    match answer_of(facts, query) {
        Some(AnswerView::Number(t)) => Some(t),
        _ => None,
    }
}

/// The truth value that `facts` give for `query`, where they answer it with
/// one.
pub open spec fn truth_of(facts: Seq<FactView>, query: QueryView) -> Option<bool> {
    match answer_of(facts, query) {
        Some(AnswerView::Truth(b)) => Some(b),
        _ => None,
    }
}

impl Query {
    /// A copy of this query.
    pub fn copy(&self) -> (same: Query)
        ensures
            same@ == self@,
    {
        match self {
            Query::Negate(t) => Query::Negate(t.clone()),
            Query::Apply(o, a, b) => Query::Apply(*o, a.clone(), b.clone()),
        }
    }

    /// Whether two queries ask the same.
    pub fn same(&self, other: &Query) -> (equal: bool)
        ensures
            equal == (self@ == other@),
    {
        match (self, other) {
            (Query::Negate(a), Query::Negate(b)) => *a == *b,
            (Query::Apply(o, a, b), Query::Apply(p, c, d)) => *o == *p && *a == *c && *b == *d,
            _ => false,
        }
    }
}

impl Fractions {
    /// A table without facts.
    pub fn new() -> (table: Fractions)
        ensures
            table@ == Seq::<FactView>::empty(),
    {
        let table = Fractions { facts: Vec::new() };
        assert(table@ =~= Seq::<FactView>::empty());
        table
    }

    /// Records a fact behind those already known.
    pub fn record(&mut self, query: Query, answer: Answer)
        ensures
            final(self)@ == old(self)@.push(FactView { query: query@, answer: answer@ }),
    {
        self.facts.push(Fact { query, answer });
        assert(self@ =~= old(self)@.push(FactView { query: query@, answer: answer@ }));
    }

    /// How many facts are known.
    pub fn len(&self) -> (count: usize)
        ensures
            count == self@.len(),
    {
        self.facts.len()
    }

    fn find(&self, query: &Query) -> (at: Option<usize>)
        ensures
            match at {
                Some(i) => i < self.facts.len() && answer_of(self@, query@) == Some(
                    self.facts[i as int].answer@,
                ),
                None => answer_of(self@, query@) is None,
            },
    {
        let mut i: usize = self.facts.len();
        while i > 0
            invariant
                i <= self.facts.len(),
                answer_of(self@, query@) == answer_among(self@, query@, i as nat),
            decreases i,
        {
            if self.facts[i - 1].query.same(query) {
                return Some(i - 1);
            }
            i -= 1;
        }
        None
    }

    /// The number recorded for `query`.
    pub fn number(&self, query: &Query) -> (number: Option<String>)
        ensures
            match number_of(self@, query@) {
                Some(t) => number matches Some(n) && n@ == t,
                None => number is None,
            },
    {
        match self.find(query) {
            Some(i) => match &self.facts[i].answer {
                Answer::Number(t) => Some(t.clone()),
                Answer::Truth(_) => None,
            },
            None => None,
        }
    }

    /// The truth value recorded for `query`.
    pub fn truth(&self, query: &Query) -> (truth: Option<bool>)
        ensures
            truth == truth_of(self@, query@),
    {
        match self.find(query) {
            Some(i) => match &self.facts[i].answer {
                Answer::Number(_) => None,
                Answer::Truth(b) => Some(*b),
            },
            None => None,
        }
    }
}

} // verus!
