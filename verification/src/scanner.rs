//! A cursor over the characters of a source text. It counts lines and
//! remembers where the lexeme being read began.


use vstd::prelude::*;
use vstd::string::*;

verus! {

/// A position in a text, the start of the lexeme being read and the line
/// reached.
pub struct Scanner {
    input: Vec<char>,
    line: usize,
    // current position
    index: usize,
    // lexeme start
    start: usize,
}

/// The line count after the character `c` has been read on line `line`. The
/// count stops at the largest line number the machine can hold.
pub open spec fn line_after(line: usize, c: char) -> usize {
    if c == '\n' && line < usize::MAX {
        (line + 1) as usize
    } else {
        line
    }
}

impl Scanner {
    /// The characters this scanner reads.
    pub closed spec fn chars(&self) -> Seq<char> {
        self.input@
    }

    /// How many characters have been read.
    pub closed spec fn position(&self) -> nat {
        self.index as nat
    }

    /// Where the current lexeme begins.
    pub closed spec fn lexeme_start(&self) -> nat {
        self.start as nat
    }

    /// The current line.
    pub closed spec fn spec_line(&self) -> usize {
        self.line
    }

    /// The lexeme starts at or before the position, and the position is
    /// inside the text or at its end.
    pub open spec fn wf(&self) -> bool {
        self.lexeme_start() <= self.position() <= self.chars().len()
    }

    /// The same text with other marks.
    pub open spec fn moved(&self, other: &Scanner) -> bool {
        other.chars() == self.chars()
    }

    /// A scanner at the first character of `source`, on line 1.
    pub fn new(source: String) -> (scanner: Self)
        ensures
            scanner.wf(),
            scanner.chars() == source@,
            scanner.position() == 0,
            scanner.lexeme_start() == 0,
            scanner.spec_line() == 1,
    {
        let mut input: Vec<char> = Vec::new();
        let text = source.as_str();
        for c in it: text.chars()
            invariant
                it.seq() == text@,
                input@ == text@.take(it.index() as int),
        {
            input.push(c);
        }
        assert(input@ == source@);
        Self { input, line: 1, index: 0, start: 0 }
    }

    /// Reads the next character. At the end of the text nothing is read and
    /// nothing changes.
    pub fn advance(&mut self) -> (c: Option<char>)
        requires
            old(self).wf(),
        ensures
            final(self).wf(),
            final(self).chars() == old(self).chars(),
            final(self).lexeme_start() == old(self).lexeme_start(),
            old(self).position() < old(self).chars().len() ==> {
                &&& c == Some(old(self).chars()[old(self).position() as int])
                &&& final(self).position() == old(self).position() + 1
                &&& final(self).spec_line() == line_after(old(self).spec_line(), c->0)
            },
            old(self).position() >= old(self).chars().len() ==> {
                &&& c is None
                &&& final(self).position() == old(self).position()
                &&& final(self).spec_line() == old(self).spec_line()
            },
    {
        if self.index < self.input.len() {
            let c = self.input[self.index];
            if c == '\n' && self.line < usize::MAX {
                self.line += 1;
            }
            self.index += 1;
            Some(c)
        } else {
            None
        }
    }

    /// The next character, which stays unread.
    pub fn peek(&self) -> (c: Option<char>)
        requires
            self.wf(),
        ensures
            self.position() < self.chars().len() ==> c == Some(self.chars()[self.position() as int]),
            self.position() >= self.chars().len() ==> c is None,
    {
        if self.index < self.input.len() {
            Some(self.input[self.index])
        } else {
            None
        }
    }

    /// The character after the next one, which stays unread.
    pub fn peek_second(&self) -> (c: Option<char>)
        requires
            self.wf(),
        ensures
            self.position() + 1 < self.chars().len() ==> c == Some(
                self.chars()[self.position() as int + 1],
            ),
            self.position() + 1 >= self.chars().len() ==> c is None,
    {
        if self.index < self.input.len() && self.index + 1 < self.input.len() {
            Some(self.input[self.index + 1])
        } else {
            None
        }
    }

    /// The characters read since the lexeme began.
    pub fn take_lexeme(&mut self) -> (lexeme: String)
        requires
            old(self).wf(),
        ensures
            *final(self) == *old(self),
            lexeme@ == old(self).chars().subrange(
                old(self).lexeme_start() as int,
                old(self).position() as int,
            ),
    {
        let mut lexeme = String::new();
        let mut i: usize = self.start;
        while i < self.index
            invariant
                self.start <= i <= self.index <= self.input.len(),
                lexeme@ == self.input@.subrange(self.start as int, i as int),
            decreases self.index - i,
        {
            lexeme.push(self.input[i]);
            assert(self.input@.subrange(self.start as int, i + 1) =~= self.input@.subrange(
                self.start as int,
                i as int,
            ).push(self.input@[i as int]));
            i += 1;
        }
        lexeme
    }

    /// Begins a new lexeme at the current position.
    pub fn reset_start(&mut self)
        requires
            old(self).wf(),
        ensures
            final(self).wf(),
            final(self).chars() == old(self).chars(),
            final(self).position() == old(self).position(),
            final(self).spec_line() == old(self).spec_line(),
            final(self).lexeme_start() == old(self).position(),
    {
        self.start = self.index;
    }

    /// The line reached: 1 and the number of newlines read.
    pub fn line(&self) -> (line: usize)
        ensures
            line == self.spec_line(),
    {
        self.line
    }
}

} // verus!
