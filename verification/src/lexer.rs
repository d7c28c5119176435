//! The lexer: from the characters of a source text to its tokens.
//!
//! `lex` says, as a function of the characters alone, which tokens a text
//! holds or which error stops the lexer; `tokens` computes it.

use crate::errors::{CompilerError, ErrorView};
use crate::scanner::{line_after, Scanner};
use crate::tokens::{views, Conditional, Operator, Symbol, Token, TokenView, Type, Value, ValueView};
use vstd::prelude::*;
use vstd::string::*;

verus! {

/// The decimal digits.
pub open spec fn is_digit(c: char) -> bool {
    '0' <= c && c <= '9'
}

/// The letters a name may begin with.
pub open spec fn is_letter(c: char) -> bool {
    ('a' <= c && c <= 'z') || ('A' <= c && c <= 'Z')
}

/// The characters a name may hold after its first letter.
pub open spec fn is_word_char(c: char) -> bool {
    is_letter(c) || is_digit(c) || c == '-'
}

/// How many digits stand in a row from `from` on.
pub open spec fn digits_len(chars: Seq<char>, from: nat) -> nat
    decreases chars.len() - from,
{
    if from < chars.len() && is_digit(chars[from as int]) {
        1 + digits_len(chars, from + 1)
    } else {
        0
    }
}

/// How many characters of a name stand in a row from `from` on.
pub open spec fn word_len(chars: Seq<char>, from: nat) -> nat
    decreases chars.len() - from,
{
    if from < chars.len() && is_word_char(chars[from as int]) {
        1 + word_len(chars, from + 1)
    } else {
        0
    }
}

/// How many characters other than `stop` stand in a row from `from` on.
pub open spec fn until_len(chars: Seq<char>, from: nat, stop: char) -> nat
    decreases chars.len() - from,
{
    if from < chars.len() && chars[from as int] != stop {
        1 + until_len(chars, from + 1, stop)
    } else {
        0
    }
}

/// The line count after the `count` characters from `from` on have been read.
pub open spec fn line_over(chars: Seq<char>, from: nat, count: nat, line: usize) -> usize
    decreases count,
{
    if count == 0 || from >= chars.len() {
        line
    } else {
        line_over(chars, from + 1, (count - 1) as nat, line_after(line, chars[from as int]))
    }
}

/// The number that a row of digits writes.
pub open spec fn digits_value(digits: Seq<char>) -> nat
    decreases digits.len(),
{
    if digits.len() == 0 {
        0
    } else {
        digits_value(digits.drop_last()) * 10 + (digits.last() as nat - 48) as nat
    }
}

/// Whether a text holds digits only.
pub open spec fn all_digits(text: Seq<char>) -> bool {
    forall|i: int| 0 <= i < text.len() ==> is_digit(#[trigger] text[i])
}

/// What the lexer does at one position: it emits a token, passes over
/// characters that make none, or fails.
pub enum Step {
    Emit { token: TokenView, next: nat, line: usize },
    Skip { next: nat, line: usize },
    Fail { message: Seq<char>, line: usize },
}

/// Whether the character `c` stands at `at`.
pub open spec fn has_at(chars: Seq<char>, at: nat, c: char) -> bool {
    at < chars.len() && chars[at as int] == c
}

/// The step that emits a symbol.
pub open spec fn emit_symbol(s: Symbol, next: nat, line: usize) -> Step {
    Step::Emit { token: TokenView::Symbol(s, line), next, line }
}

/// The step that emits an operator.
pub open spec fn emit_operator(o: Operator, next: nat, line: usize) -> Step {
    Step::Emit { token: TokenView::Operator(o, line), next, line }
}

/// The message that a numeral writes no number that fits.
pub open spec fn numeric_message(text: Seq<char>) -> Seq<char> {
    "could not parse numeric `"@ + text + "`"@
}

/// The message that a character begins no token.
pub open spec fn character_message(c: char) -> Seq<char> {
    "invalid character `"@.push(c) + "`"@
}

/// A comment runs from `#` at `pos` through the next newline, which makes no
/// token.
pub open spec fn lex_comment(chars: Seq<char>, pos: nat, line: usize) -> Step {
    let end = pos + 1 + until_len(chars, pos + 1, '\n');
    if end < chars.len() {
        Step::Skip { next: end + 1, line: line_after(line, '\n') }
    } else {
        Step::Skip { next: end, line }
    }
}

/// A number starts with the digit at `pos`. It is fractional when a point and
/// at least one digit follow its digits; else the point is not part of it.
pub open spec fn lex_number(chars: Seq<char>, pos: nat, line: usize) -> Step {
    let whole_end = pos + 1 + digits_len(chars, pos + 1);
    if has_at(chars, whole_end, '.') && whole_end + 1 < chars.len() && is_digit(
        chars[whole_end as int + 1],
    ) {
        let end = whole_end + 2 + digits_len(chars, whole_end + 2);
        Step::Emit {
            token: TokenView::Value(
                ValueView::Fractional(chars.subrange(pos as int, end as int)),
                line,
            ),
            next: end,
            line,
        }
    } else {
        let text = chars.subrange(pos as int, whole_end as int);
        if digits_value(text) <= i64::MAX {
            Step::Emit {
                token: TokenView::Value(ValueView::Integer(digits_value(text) as i64), line),
                next: whole_end,
                line,
            }
        } else {
            Step::Fail { message: numeric_message(text), line }
        }
    }
}

/// A string starts with the quote at `pos` and runs through the next quote;
/// the token holds what stands between them and bears the line of the closing
/// quote.
pub open spec fn lex_string(chars: Seq<char>, pos: nat, line: usize) -> Step {
    let body = until_len(chars, pos + 1, '"');
    let close = pos + 1 + body;
    let last_line = line_over(chars, pos + 1, body, line);
    if close < chars.len() {
        Step::Emit {
            token: TokenView::Value(
                ValueView::String(chars.subrange(pos as int + 1, close as int)),
                last_line,
            ),
            next: close + 1,
            line: last_line,
        }
    } else {
        Step::Fail { message: "unterminated string"@, line: last_line }
    }
}

/// What a word is: a boolean, a keyword, a type, or else a name.
pub open spec fn classify(word: Seq<char>, line: usize) -> TokenView {
    if word == "true"@ {
        TokenView::Value(ValueView::Boolean(true), line)
    } else if word == "false"@ {
        TokenView::Value(ValueView::Boolean(false), line)
    } else if word == "if"@ {
        TokenView::Conditional(Conditional::If, line)
    } else if word == "then"@ {
        TokenView::Conditional(Conditional::Then, line)
    } else if word == "else"@ {
        TokenView::Conditional(Conditional::Else, line)
    } else if word == "Int"@ {
        TokenView::Type(Type::Int, line)
    } else if word == "Frac"@ {
        TokenView::Type(Type::Frac, line)
    } else if word == "Str"@ {
        TokenView::Type(Type::Str, line)
    } else if word == "Bool"@ {
        TokenView::Type(Type::Bool, line)
    } else if word == "Void"@ {
        TokenView::Type(Type::Void, line)
    } else {
        TokenView::Identifier(word, line)
    }
}

/// A word starts with the letter at `pos` and runs on over letters, digits
/// and hyphens.
pub open spec fn lex_word(chars: Seq<char>, pos: nat, line: usize) -> Step {
    let end = pos + 1 + word_len(chars, pos + 1);
    Step::Emit { token: classify(chars.subrange(pos as int, end as int), line), next: end, line }
}

/// What the lexer does at `pos`, where a character stands, on line `line`.
pub open spec fn lex_step(chars: Seq<char>, pos: nat, line: usize) -> Step {
    let c = chars[pos as int];
    let next = pos + 1;
    if c == '#' {
        lex_comment(chars, pos, line)
    } else if c == '\n' {
        emit_symbol(Symbol::EOL, next, line_after(line, '\n'))
    } else if c == ';' {
        emit_symbol(Symbol::EOL, next, line)
    } else if c == '\r' {
        if has_at(chars, next, '\n') {
            emit_symbol(Symbol::EOL, next + 1, line_after(line, '\n'))
        } else {
            emit_symbol(Symbol::EOL, next, line)
        }
    } else if c == ' ' || c == '\t' {
        Step::Skip { next, line }
    } else if c == '(' {
        emit_symbol(Symbol::LP, next, line)
    } else if c == ')' {
        emit_symbol(Symbol::RP, next, line)
    } else if c == '[' {
        emit_symbol(Symbol::LB, next, line)
    } else if c == ']' {
        emit_symbol(Symbol::RB, next, line)
    } else if c == '+' {
        emit_operator(Operator::Add, next, line)
    } else if c == '*' {
        emit_operator(Operator::Mul, next, line)
    } else if c == '/' {
        emit_operator(Operator::Div, next, line)
    } else if c == '>' {
        if has_at(chars, next, '>') {
            emit_symbol(Symbol::Pipe, next + 1, line)
        } else if has_at(chars, next, '=') {
            emit_operator(Operator::Gte, next + 1, line)
        } else {
            emit_operator(Operator::Gt, next, line)
        }
    } else if c == '<' {
        if has_at(chars, next, '=') {
            emit_operator(Operator::Lte, next + 1, line)
        } else {
            emit_operator(Operator::Lt, next, line)
        }
    } else if c == '-' {
        if has_at(chars, next, '>') {
            emit_symbol(Symbol::Return, next + 1, line)
        } else {
            emit_operator(Operator::Sub, next, line)
        }
    } else if c == '=' {
        if has_at(chars, next, '=') {
            emit_operator(Operator::Eq, next + 1, line)
        } else {
            emit_symbol(Symbol::Assign, next, line)
        }
    } else if c == '&' {
        if has_at(chars, next, '&') {
            emit_operator(Operator::And, next + 1, line)
        } else {
            Step::Fail { message: "invalid token `&`"@, line }
        }
    } else if c == '|' {
        if has_at(chars, next, '|') {
            emit_operator(Operator::Or, next + 1, line)
        } else {
            emit_symbol(Symbol::Bar, next, line)
        }
    } else if c == '!' {
        if has_at(chars, next, '=') {
            emit_operator(Operator::Neq, next + 1, line)
        } else {
            emit_operator(Operator::Not, next, line)
        }
    } else if c == '.' {
        if has_at(chars, next, '.') {
            emit_symbol(Symbol::Range, next + 1, line)
        } else {
            Step::Fail { message: "invalid token `.`"@, line }
        }
    } else if is_digit(c) {
        lex_number(chars, pos, line)
    } else if c == '"' {
        lex_string(chars, pos, line)
    } else if is_letter(c) {
        lex_word(chars, pos, line)
    } else {
        Step::Fail { message: character_message(c), line }
    }
}

/// The tokens of the text from `pos` on, after those in `found`; or the first
/// error.
pub open spec fn lex_from(chars: Seq<char>, pos: nat, line: usize, found: Seq<TokenView>) -> Result<
    Seq<TokenView>,
    ErrorView,
>
    decreases
        (if pos <= chars.len() {
            chars.len() - pos
        } else {
            0
        }),
{
    if pos >= chars.len() {
        Ok(found)
    } else {
        match lex_step(chars, pos, line) {
            Step::Fail { message, line } => Err(ErrorView::Lexer(message, line)),
            Step::Skip { next, line } => lex_from(chars, next, line, found),
            Step::Emit { token, next, line } => lex_from(chars, next, line, found.push(token)),
        }
    }
}

/// The tokens of a whole text, or the first lexical error in it.
pub open spec fn lex(chars: Seq<char>) -> Result<Seq<TokenView>, ErrorView> {
    lex_from(chars, 0, 1, Seq::empty())
}

/// A run of characters that holds no newline leaves the line count as it was.
pub proof fn lemma_line_unchanged(chars: Seq<char>, from: nat, line: usize)
    ensures
        line_over(chars, from, until_len(chars, from, '\n'), line) == line,
    decreases chars.len() - from,
{
    if from < chars.len() && chars[from as int] != '\n' {
        lemma_line_unchanged(chars, from + 1, line);
    }
}

/// A run of digits holds digits only.
pub proof fn lemma_digits_run(chars: Seq<char>, from: nat)
    requires
        from <= chars.len(),
    ensures
        from + digits_len(chars, from) <= chars.len(),
        all_digits(chars.subrange(from as int, from as int + digits_len(chars, from))),
    decreases chars.len() - from,
{
    if from < chars.len() && is_digit(chars[from as int]) {
        lemma_digits_run(chars, from + 1);
        let run = chars.subrange(from as int, from as int + digits_len(chars, from));
        let rest = chars.subrange(from as int + 1, from as int + 1 + digits_len(chars, from + 1));
        assert forall|i: int| 0 <= i < run.len() implies is_digit(#[trigger] run[i]) by {
            if i > 0 {
                assert(run[i] == rest[i - 1]);
            }
        }
    }
}

/// Of a row of digits, no beginning writes a larger number than the whole.
pub proof fn lemma_digits_value_grows(digits: Seq<char>, n: int)
    requires
        all_digits(digits),
        0 <= n <= digits.len(),
    ensures
        digits_value(digits.take(n)) <= digits_value(digits),
    decreases digits.len(),
{
    if n == digits.len() {
        assert(digits.take(n) =~= digits);
    } else {
        let shorter = digits.drop_last();
        assert(is_digit(digits.last()));
        assert forall|i: int| 0 <= i < shorter.len() implies is_digit(#[trigger] shorter[i]) by {
            assert(shorter[i] == digits[i]);
        }
        lemma_digits_value_grows(shorter, n);
        assert(shorter.take(n) =~= digits.take(n));
    }
}

fn digit(c: char) -> (r: bool)
    ensures
        r == is_digit(c),
{
    c >= '0' && c <= '9'
}

fn letter(c: char) -> (r: bool)
    ensures
        r == is_letter(c),
{
    (c >= 'a' && c <= 'z') || (c >= 'A' && c <= 'Z')
}

/// The number that a row of digits writes, or nothing when it is too large
/// for a 64-bit signed integer.
pub fn parse_integer(text: &str) -> (value: Option<i64>)
    requires
        all_digits(text@),
    ensures
        match value {
            Some(v) => digits_value(text@) == v,
            None => digits_value(text@) > i64::MAX,
        },
{
    let mut acc: i64 = 0;
    let n = text.unicode_len();
    let mut i: usize = 0;
    while i < n
        invariant
            n == text@.len(),
            i <= n,
            all_digits(text@),
            acc == digits_value(text@.take(i as int)),
        decreases n - i,
    {
        let c = text.get_char(i);
        let d: i64 = ((c as u8) - 48) as i64;
        proof {
            assert(is_digit(text@[i as int]));
            assert(text@.take(i + 1).drop_last() =~= text@.take(i as int));
            assert(text@.take(i + 1).last() == c);
            assert(digits_value(text@.take(i + 1)) == acc * 10 + d);
        }
        if acc > (i64::MAX - d) / 10 {
            proof {
                lemma_digits_value_grows(text@, i + 1);
            }
            return None;
        }
        acc = acc * 10 + d;
        i += 1;
    }
    proof {
        assert(text@.take(n as int) =~= text@);
    }
    Some(acc)
}

/// A text without its first and last character; nothing is left of a text
/// of fewer than two characters.
pub open spec fn stripped(text: Seq<char>) -> Seq<char> {
    if text.len() >= 2 {
        text.subrange(1, text.len() - 1)
    } else {
        Seq::empty()
    }
}

/// A string literal without its quotes.
pub fn strip_string(value: &str) -> (inner: &str)
    ensures
        inner@ == stripped(value@),
{
    let n = value.unicode_len();
    if n >= 2 {
        value.substring_char(1, n - 1)
    } else {
        let inner = value.substring_char(0, 0);
        assert(inner@ =~= Seq::<char>::empty());
        inner
    }
}

fn is_word(text: &String, word: &str) -> (same: bool)
    ensures
        same == (text@ == word@),
{
    let other = String::from_str(word);
    *text == other
}

/// Reads on over digits.
fn skip_digits(scanner: &mut Scanner)
    requires
        old(scanner).wf(),
    ensures
        final(scanner).wf(),
        final(scanner).chars() == old(scanner).chars(),
        final(scanner).lexeme_start() == old(scanner).lexeme_start(),
        final(scanner).spec_line() == old(scanner).spec_line(),
        final(scanner).position() == old(scanner).position() + digits_len(
            old(scanner).chars(),
            old(scanner).position(),
        ),
{
    loop
        invariant
            scanner.wf(),
            scanner.chars() == old(scanner).chars(),
            scanner.lexeme_start() == old(scanner).lexeme_start(),
            scanner.spec_line() == old(scanner).spec_line(),
            scanner.position() >= old(scanner).position(),
            scanner.position() + digits_len(scanner.chars(), scanner.position()) == old(
                scanner,
            ).position() + digits_len(old(scanner).chars(), old(scanner).position()),
        ensures
            digits_len(scanner.chars(), scanner.position()) == 0,
        decreases scanner.chars().len() - scanner.position(),
    {
        match scanner.peek() {
            Some(c) => {
                if digit(c) {
                    scanner.advance();
                } else {
                    break ;
                }
            },
            None => {
                break ;
            },
        }
    }
}

/// Reads on over the characters of a name.
fn skip_word(scanner: &mut Scanner)
    requires
        old(scanner).wf(),
    ensures
        final(scanner).wf(),
        final(scanner).chars() == old(scanner).chars(),
        final(scanner).lexeme_start() == old(scanner).lexeme_start(),
        final(scanner).spec_line() == old(scanner).spec_line(),
        final(scanner).position() == old(scanner).position() + word_len(
            old(scanner).chars(),
            old(scanner).position(),
        ),
{
    loop
        invariant
            scanner.wf(),
            scanner.chars() == old(scanner).chars(),
            scanner.lexeme_start() == old(scanner).lexeme_start(),
            scanner.spec_line() == old(scanner).spec_line(),
            scanner.position() >= old(scanner).position(),
            scanner.position() + word_len(scanner.chars(), scanner.position()) == old(
                scanner,
            ).position() + word_len(old(scanner).chars(), old(scanner).position()),
        ensures
            word_len(scanner.chars(), scanner.position()) == 0,
        decreases scanner.chars().len() - scanner.position(),
    {
        match scanner.peek() {
            Some(c) => {
                if letter(c) || digit(c) || c == '-' {
                    scanner.advance();
                } else {
                    break ;
                }
            },
            None => {
                break ;
            },
        }
    }
}

/// Reads on until `stop` is next or the text ends.
fn skip_until(scanner: &mut Scanner, stop: char)
    requires
        old(scanner).wf(),
    ensures
        final(scanner).wf(),
        final(scanner).chars() == old(scanner).chars(),
        final(scanner).lexeme_start() == old(scanner).lexeme_start(),
        final(scanner).position() == old(scanner).position() + until_len(
            old(scanner).chars(),
            old(scanner).position(),
            stop,
        ),
        final(scanner).position() <= final(scanner).chars().len(),
        has_at(final(scanner).chars(), final(scanner).position(), stop)
            || final(scanner).position() == final(scanner).chars().len(),
        final(scanner).spec_line() == line_over(
            old(scanner).chars(),
            old(scanner).position(),
            until_len(old(scanner).chars(), old(scanner).position(), stop),
            old(scanner).spec_line(),
        ),
{
    loop
        invariant
            scanner.wf(),
            scanner.chars() == old(scanner).chars(),
            scanner.lexeme_start() == old(scanner).lexeme_start(),
            scanner.position() >= old(scanner).position(),
            scanner.position() <= scanner.chars().len(),
            scanner.position() + until_len(scanner.chars(), scanner.position(), stop) == old(
                scanner,
            ).position() + until_len(old(scanner).chars(), old(scanner).position(), stop),
            line_over(
                scanner.chars(),
                scanner.position(),
                until_len(scanner.chars(), scanner.position(), stop),
                scanner.spec_line(),
            ) == line_over(
                old(scanner).chars(),
                old(scanner).position(),
                until_len(old(scanner).chars(), old(scanner).position(), stop),
                old(scanner).spec_line(),
            ),
        ensures
            until_len(scanner.chars(), scanner.position(), stop) == 0,
        decreases scanner.chars().len() - scanner.position(),
    {
        match scanner.peek() {
            Some(c) => {
                if c != stop {
                    scanner.advance();
                } else {
                    break ;
                }
            },
            None => {
                break ;
            },
        }
    }
}

struct Lexer {
    scanner: Scanner,
    tokens: Vec<Token>,
}

impl Lexer {
    /// The lexer has done `step` since it was `before`, and `outcome` reports
    /// it.
    spec fn stepped(
        &self,
        before: &Lexer,
        step: Step,
        outcome: Result<(), CompilerError>,
    ) -> bool {
        &&& self.scanner.wf()
        &&& self.scanner.chars() == before.scanner.chars()
        &&& self.scanner.lexeme_start() == before.scanner.lexeme_start()
        &&& match step {
            Step::Emit { token, next, line } => {
                &&& outcome is Ok
                &&& views(self.tokens@) == views(before.tokens@).push(token)
                &&& self.scanner.position() == next
                &&& self.scanner.spec_line() == line
            },
            Step::Skip { next, line } => {
                &&& outcome is Ok
                &&& views(self.tokens@) == views(before.tokens@)
                &&& self.scanner.position() == next
                &&& self.scanner.spec_line() == line
            },
            Step::Fail { message, line } => {
                &&& outcome matches Err(e)
                &&& e@ == ErrorView::Lexer(message, line)
            },
        }
    }

    /// The lexer has read the first character of a lexeme, which began at
    /// `pos` on line `line`.
    spec fn inside(&self, pos: nat, line: usize) -> bool {
        &&& self.scanner.wf()
        &&& self.scanner.lexeme_start() == pos
        &&& self.scanner.position() == pos + 1
        &&& self.scanner.spec_line() == line
        &&& pos < self.scanner.chars().len()
    }

    spec fn chars(&self) -> Seq<char> {
        self.scanner.chars()
    }

    fn new(scanner: Scanner) -> (lexer: Self)
        ensures
            lexer.scanner == scanner,
            lexer.tokens@.len() == 0,
    {
        Self { scanner, tokens: Vec::new() }
    }

    fn push(&mut self, token: Token)
        ensures
            final(self).scanner == old(self).scanner,
            views(final(self).tokens@) == views(old(self).tokens@).push(token@),
    {
        self.tokens.push(token);
        assert(views(self.tokens@) =~= views(old(self).tokens@).push(token@));
    }

    fn line(&self) -> (line: usize)
        ensures
            line == self.scanner.spec_line(),
    {
        self.scanner.line()
    }

    fn push_symbol(&mut self, symbol: Symbol)
        ensures
            final(self).scanner == old(self).scanner,
            views(final(self).tokens@) == views(old(self).tokens@).push(
                TokenView::Symbol(symbol, old(self).scanner.spec_line()),
            ),
    {
        let line = self.line();
        self.push(Token::Symbol(symbol, line));
    }

    fn push_operator(&mut self, operator: Operator)
        ensures
            final(self).scanner == old(self).scanner,
            views(final(self).tokens@) == views(old(self).tokens@).push(
                TokenView::Operator(operator, old(self).scanner.spec_line()),
            ),
    {
        let line = self.line();
        self.push(Token::Operator(operator, line));
    }

    /// Whether `c` comes next.
    fn next_is(&self, c: char) -> (is: bool)
        requires
            self.scanner.wf(),
        ensures
            is == has_at(self.scanner.chars(), self.scanner.position(), c),
    {
        match self.scanner.peek() {
            Some(next) => next == c,
            None => false,
        }
    }

    fn tokens(&mut self) -> (result: Result<Vec<Token>, CompilerError>)
        requires
            old(self).scanner.wf(),
            old(self).scanner.position() == 0,
            old(self).scanner.lexeme_start() == 0,
            old(self).scanner.spec_line() == 1,
            old(self).tokens@.len() == 0,
        ensures
            match lex(old(self).scanner.chars()) {
                Ok(found) => result matches Ok(tokens) && views(tokens@) == found,
                Err(error) => result matches Err(e) && e@ == error,
            },
    {
        let ghost chars = self.scanner.chars();
        assert(views(self.tokens@) =~= Seq::<TokenView>::empty());
        loop
            invariant
                chars == old(self).scanner.chars(),
                self.scanner.wf(),
                self.scanner.chars() == chars,
                self.scanner.lexeme_start() == self.scanner.position(),
                lex(chars) == lex_from(
                    chars,
                    self.scanner.position(),
                    self.scanner.spec_line(),
                    views(self.tokens@),
                ),
            ensures
                self.scanner.position() >= chars.len(),
                lex(chars) == Ok::<Seq<TokenView>, ErrorView>(views(self.tokens@)),
            decreases chars.len() - self.scanner.position(),
        {
            let ghost pos = self.scanner.position();
            let ghost line = self.scanner.spec_line();
            let ghost before = *self;
            let c = match self.scanner.advance() {
                Some(c) => c,
                None => {
                    break ;
                },
            };
            let outcome: Result<(), CompilerError> = if c == '#' {
                // Comments
                skip_until(&mut self.scanner, '\n');
                self.scanner.advance();
                proof {
                    lemma_line_unchanged(chars, pos + 1, line);
                }
                Ok(())
            } else if c == '\n' || c == ';' {
                // Newline - semicolon can be used as a line terminator
                self.push_symbol(Symbol::EOL);
                Ok(())
            } else if c == '\r' {
                // CR and CRLF line endings
                if self.next_is('\n') {
                    self.scanner.advance();
                }
                self.push_symbol(Symbol::EOL);
                Ok(())
            } else if c == ' ' || c == '\t' {
                // Whitespace
                Ok(())
            } else if c == '(' {
                self.push_symbol(Symbol::LP);
                Ok(())
            } else if c == ')' {
                self.push_symbol(Symbol::RP);
                Ok(())
            } else if c == '[' {
                self.push_symbol(Symbol::LB);
                Ok(())
            } else if c == ']' {
                self.push_symbol(Symbol::RB);
                Ok(())
            } else if c == '+' {
                self.push_operator(Operator::Add);
                Ok(())
            } else if c == '*' {
                self.push_operator(Operator::Mul);
                Ok(())
            } else if c == '/' {
                self.push_operator(Operator::Div);
                Ok(())
            } else if c == '>' {
                // Double-character tokens
                if self.next_is('>') {
                    self.push_symbol(Symbol::Pipe);
                    self.scanner.advance();
                } else if self.next_is('=') {
                    self.push_operator(Operator::Gte);
                    self.scanner.advance();
                } else {
                    self.push_operator(Operator::Gt);
                }
                Ok(())
            } else if c == '<' {
                if self.next_is('=') {
                    self.push_operator(Operator::Lte);
                    self.scanner.advance();
                } else {
                    self.push_operator(Operator::Lt);
                }
                Ok(())
            } else if c == '-' {
                if self.next_is('>') {
                    self.push_symbol(Symbol::Return);
                    self.scanner.advance();
                } else {
                    self.push_operator(Operator::Sub);
                }
                Ok(())
            } else if c == '=' {
                if self.next_is('=') {
                    self.push_operator(Operator::Eq);
                    self.scanner.advance();
                } else {
                    self.push_symbol(Symbol::Assign);
                }
                Ok(())
            } else if c == '&' {
                if self.next_is('&') {
                    self.push_operator(Operator::And);
                    self.scanner.advance();
                    Ok(())
                } else {
                    Err(CompilerError::Lexer(String::from_str("invalid token `&`"), self.line()))
                }
            } else if c == '|' {
                if self.next_is('|') {
                    self.push_operator(Operator::Or);
                    self.scanner.advance();
                } else {
                    self.push_symbol(Symbol::Bar);
                }
                Ok(())
            } else if c == '!' {
                if self.next_is('=') {
                    self.push_operator(Operator::Neq);
                    self.scanner.advance();
                } else {
                    self.push_operator(Operator::Not);
                }
                Ok(())
            } else if c == '.' {
                if self.next_is('.') {
                    self.push_symbol(Symbol::Range);
                    self.scanner.advance();
                    Ok(())
                } else {
                    Err(CompilerError::Lexer(String::from_str("invalid token `.`"), self.line()))
                }
            } else if digit(c) {
                // Multi-character tokens
                self.tokenize_numeric()
            } else if c == '"' {
                self.tokenize_string()
            } else if letter(c) {
                self.tokenize_other()
            } else {
                let mut message = String::from_str("invalid character `");
                message.push(c);
                message.append("`");
                Err(CompilerError::Lexer(message, self.line()))
            };
            assert(self.stepped(&before, lex_step(chars, pos, line), outcome));
            match outcome {
                Ok(()) => {},
                Err(error) => {
                    return Err(error);
                },
            }
            self.scanner.reset_start();
        }
        let mut found: Vec<Token> = Vec::new();
        std::mem::swap(&mut self.tokens, &mut found);
        Ok(found)
    }

    fn tokenize_numeric(&mut self) -> (outcome: Result<(), CompilerError>)
        requires
            old(self).inside(old(self).scanner.lexeme_start(), old(self).scanner.spec_line()),
            is_digit(old(self).chars()[old(self).scanner.lexeme_start() as int]),
        ensures
            final(self).stepped(
                old(self),
                lex_number(
                    old(self).chars(),
                    old(self).scanner.lexeme_start(),
                    old(self).scanner.spec_line(),
                ),
                outcome,
            ),
    {
        let ghost chars = self.scanner.chars();
        let ghost pos = self.scanner.lexeme_start();
        skip_digits(&mut self.scanner);
        let ghost whole_end = self.scanner.position();

        // Check for and handle fractional part
        if self.next_is('.') {
            let after_point = match self.scanner.peek_second() {
                Some(c) => digit(c),
                None => false,
            };
            if after_point {
                self.scanner.advance();  // Consume '.'
                self.scanner.advance();
                skip_digits(&mut self.scanner);
                proof {
                    assert(digits_len(chars, whole_end + 1) == 1 + digits_len(
                        chars,
                        whole_end + 2,
                    ));
                }
                let lexeme = self.scanner.take_lexeme();
                let line = self.line();
                self.push(Token::Value(Value::Fractional(lexeme), line));
                return Ok(());
            }
        }
        // Handle integer part

        let lexeme = self.scanner.take_lexeme();
        proof {
            lemma_digits_run(chars, pos + 1);
            let rest = chars.subrange(pos as int + 1, whole_end as int);
            assert forall|i: int| 0 <= i < lexeme@.len() implies is_digit(
                #[trigger] lexeme@[i],
            ) by {
                if i > 0 {
                    assert(lexeme@[i] == rest[i - 1]);
                }
            }
        }
        match parse_integer(lexeme.as_str()) {
            Some(number) => {
                let line = self.line();
                self.push(Token::Value(Value::Integer(number), line));
                Ok(())
            },
            None => {
                let mut message = String::from_str("could not parse numeric `");
                message.append(lexeme.as_str());
                message.append("`");
                Err(CompilerError::Lexer(message, self.scanner.line()))
            },
        }
    }

    fn tokenize_string(&mut self) -> (outcome: Result<(), CompilerError>)
        requires
            old(self).inside(old(self).scanner.lexeme_start(), old(self).scanner.spec_line()),
        ensures
            final(self).stepped(
                old(self),
                lex_string(
                    old(self).chars(),
                    old(self).scanner.lexeme_start(),
                    old(self).scanner.spec_line(),
                ),
                outcome,
            ),
    {
        let ghost chars = self.scanner.chars();
        let ghost pos = self.scanner.lexeme_start();
        skip_until(&mut self.scanner, '"');
        let ghost close = self.scanner.position();

        if !self.next_is('"') {
            return Err(
                CompilerError::Lexer(String::from_str("unterminated string"), self.scanner.line()),
            );
        } else {
            self.scanner.advance();  // Include the closing `"`
        }

        let lexeme = self.scanner.take_lexeme();
        let stripped_lexeme = strip_string(lexeme.as_str());
        proof {
            assert(stripped_lexeme@ =~= chars.subrange(pos as int + 1, close as int));
        }
        let line = self.line();
        self.push(Token::Value(Value::String(String::from_str(stripped_lexeme)), line));
        Ok(())
    }

    fn tokenize_other(&mut self) -> (outcome: Result<(), CompilerError>)
        requires
            old(self).inside(old(self).scanner.lexeme_start(), old(self).scanner.spec_line()),
        ensures
            final(self).stepped(
                old(self),
                lex_word(
                    old(self).chars(),
                    old(self).scanner.lexeme_start(),
                    old(self).scanner.spec_line(),
                ),
                outcome,
            ),
    {
        // Valid characters for identifiers other than a-z, A-Z, 0-9: `-`, for
        // kebab-case names
        skip_word(&mut self.scanner);
        let lexeme = self.scanner.take_lexeme();
        let line = self.line();

        // Booleans are the only literals not captured by the caller
        let token = if is_word(&lexeme, "true") {
            Token::Value(Value::Boolean(true), line)
        } else if is_word(&lexeme, "false") {
            Token::Value(Value::Boolean(false), line)
        } else if is_word(&lexeme, "if") {
            // Keywords
            Token::Conditional(Conditional::If, line)
        } else if is_word(&lexeme, "then") {
            Token::Conditional(Conditional::Then, line)
        } else if is_word(&lexeme, "else") {
            Token::Conditional(Conditional::Else, line)
        } else if is_word(&lexeme, "Int") {
            // Types
            Token::Type(Type::Int, line)
        } else if is_word(&lexeme, "Frac") {
            Token::Type(Type::Frac, line)
        } else if is_word(&lexeme, "Str") {
            Token::Type(Type::Str, line)
        } else if is_word(&lexeme, "Bool") {
            Token::Type(Type::Bool, line)
        } else if is_word(&lexeme, "Void") {
            Token::Type(Type::Void, line)
        } else {
            // All other tokens are assumed to be variable names
            Token::Identifier(lexeme, line)
        };
        self.push(token);
        Ok(())
    }
}

/// The tokens of `source`, or the first lexical error in it.
pub fn tokens(source: &str) -> (result: Result<Vec<Token>, CompilerError>)
    ensures
        match lex(source@) {
            Ok(found) => result matches Ok(tokens) && views(tokens@) == found,
            Err(error) => result matches Err(e) && e@ == error,
        },
{
    let scanner = Scanner::new(String::from_str(source));
    let mut lexer = Lexer::new(scanner);
    lexer.tokens()
}

} // verus!
