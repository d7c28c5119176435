//! A cursor over a sequence of tokens. It knows nothing of the grammar.

use crate::tokens::{views, Symbol, Token, TokenView};
use vstd::prelude::*;

verus! {

/// A position in a sequence of tokens.
pub struct Parser {
    tokens: Vec<Token>,
    current: usize,
    // what the cursor shows past the last token
    end: Token,
}

/// The token at `pos`; past the last token, the end-of-input symbol on line 0.
pub open spec fn token_at(tokens: Seq<TokenView>, pos: nat) -> TokenView {
    if pos < tokens.len() {
        tokens[pos as int]
    } else {
        TokenView::Symbol(Symbol::EOF, 0)
    }
}

/// The position after the token at `pos` has been taken; the end is never left.
pub open spec fn after(tokens: Seq<TokenView>, pos: nat) -> nat {
    if pos < tokens.len() {
        pos + 1
    } else {
        pos
    }
}

/// The line of the token at `pos`; past the last token, 0.
pub open spec fn location(tokens: Seq<TokenView>, pos: nat) -> usize {
    Token::spec_line(token_at(tokens, pos))
}

/// Whether the token at `pos` is the symbol `symbol`.
pub open spec fn is_symbol(tokens: Seq<TokenView>, pos: nat, symbol: Symbol) -> bool {
    token_at(tokens, pos) matches TokenView::Symbol(s, _) && s == symbol
}

/// Whether a token other than the end of input stands at `pos`.
pub open spec fn has_more(tokens: Seq<TokenView>, pos: nat) -> bool {
    !is_symbol(tokens, pos, Symbol::EOF)
}

impl Parser {
    /// The tokens under the cursor.
    pub closed spec fn tokens(&self) -> Seq<TokenView> {
        views(self.tokens@)
    }

    /// How many tokens have been taken.
    pub closed spec fn position(&self) -> nat {
        self.current as nat
    }

    /// The cursor stands on a token or at the end.
    pub closed spec fn wf(&self) -> bool {
        &&& self.current <= self.tokens.len()
        &&& self.end@ == TokenView::Symbol(Symbol::EOF, 0)
    }

    /// The cursor never leaves the tokens.
    pub proof fn lemma_bounds(&self)
        requires
            self.wf(),
        ensures
            self.position() <= self.tokens().len(),
    {
    }

    /// A cursor at the first of `tokens`.
    pub fn new(tokens: Vec<Token>) -> (parser: Self)
        ensures
            parser.wf(),
            parser.tokens() == views(tokens@),
            parser.position() == 0,
    {
        Self { tokens, current: 0, end: Token::Symbol(Symbol::EOF, 0) }
    }

    /// The token under the cursor, which stays there.
    pub fn peek(&self) -> (token: &Token)
        requires
            self.wf(),
        ensures
            token@ == token_at(self.tokens(), self.position()),
    {
        if self.current < self.tokens.len() {
            &self.tokens[self.current]
        } else {
            &self.end
        }
    }

    /// Takes the token under the cursor. At the end nothing is taken.
    pub fn advance(&mut self) -> (token: &Token)
        requires
            old(self).wf(),
        ensures
            final(self).wf(),
            final(self).tokens() == old(self).tokens(),
            final(self).position() == after(old(self).tokens(), old(self).position()),
            token@ == token_at(old(self).tokens(), old(self).position()),
    {
        if self.current < self.tokens.len() {
            self.current += 1;
            &self.tokens[self.current - 1]
        } else {
            &self.end
        }
    }

    /// Whether the cursor stands on a token other than the end of input.
    pub fn has_more(&self) -> (more: bool)
        requires
            self.wf(),
        ensures
            more == has_more(self.tokens(), self.position()),
    {
        match self.peek() {
            Token::Symbol(Symbol::EOF, _) => false,
            _ => true,
        }
    }

    /// Takes tokens for as long as there are more and `condition` accepts the
    /// next one, and gives copies of those it took.
    pub fn advance_while<F: Fn(&Token) -> bool>(&mut self, condition: F) -> (taken: Vec<Token>)
        requires
            old(self).wf(),
            forall|t: &Token| call_requires(condition, (t,)),
        ensures
            final(self).wf(),
            final(self).tokens() == old(self).tokens(),
            final(self).position() == old(self).position() + taken.len(),
            views(taken@) == old(self).tokens().subrange(
                old(self).position() as int,
                final(self).position() as int,
            ),
            forall|k: int| 0 <= k < taken.len() ==> call_ensures(condition, (&#[trigger] taken[k],), true),
            has_more(final(self).tokens(), final(self).position()) ==> exists|refused: Token|
                refused@ == token_at(final(self).tokens(), final(self).position()) && call_ensures(
                    condition,
                    (&refused,),
                    false,
                ),
    {
        let mut tokens: Vec<Token> = Vec::new();
        loop
            invariant
                self.wf(),
                self.tokens() == old(self).tokens(),
                self.position() == old(self).position() + tokens.len(),
                forall|t: &Token| call_requires(condition, (t,)),
                views(tokens@) == old(self).tokens().subrange(
                    old(self).position() as int,
                    self.position() as int,
                ),
                forall|k: int|
                    0 <= k < tokens.len() ==> call_ensures(condition, (&#[trigger] tokens[k],), true),
            ensures
                has_more(self.tokens(), self.position()) ==> exists|refused: Token|
                    refused@ == token_at(self.tokens(), self.position()) && call_ensures(
                        condition,
                        (&refused,),
                        false,
                    ),
            decreases self.tokens().len() - self.position(),
        {
            if !self.has_more() {
                break ;
            }
            let taken = self.peek().copy();
            if !condition(&taken) {
                break ;
            }
            self.advance();
            let ghost before = views(tokens@);
            tokens.push(taken);
            assert(views(tokens@) =~= before.push(taken@));
            assert(views(tokens@) =~= old(self).tokens().subrange(
                old(self).position() as int,
                self.position() as int,
            ));
        }
        tokens
    }

    /// The line of the token under the cursor; at the end, 0.
    pub fn location(&self) -> (line: usize)
        requires
            self.wf(),
        ensures
            line == location(self.tokens(), self.position()),
    {
        if self.current < self.tokens.len() {
            match &self.tokens[self.current] {
                Token::Identifier(_, line) => *line,
                Token::Symbol(_, line) => *line,
                Token::Operator(_, line) => *line,
                Token::Type(_, line) => *line,
                Token::Value(_, line) => *line,
                Token::Conditional(_, line) => *line,
            }
        } else {
            0
        }
    }
}

} // verus!
