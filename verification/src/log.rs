//! What the program says on the way: the levels of its messages, and the
//! lines of the source it shows around an error.
//!
//! Nothing is printed here. The functions say what is to be shown; printing
//! and colours are the caller's.

use crate::text::{nat_text, push_usize};
use vstd::prelude::*;
use vstd::string::*;

verus! {

/// How many lines are shown before and behind the line of an error.
pub const SURROUNDING_LINES: usize = 3;

/// How weighty a message is, from the least to the most.
#[derive(Debug, PartialEq, Eq, PartialOrd, Ord, Clone, Copy)]
pub enum LogLevel {
    Debug,
    Info,
    Warn,
    Error,
}

/// The text that `str::to_uppercase` gives for a text.
pub uninterp spec fn uppercase(text: Seq<char>) -> Seq<char>;

/// `str::to_uppercase` gives the upper-case form of a text as Unicode
/// defines it. The result is named, not described.
#[verifier::external_body]
fn to_uppercase(text: &str) -> (upper: String)
    ensures
        upper@ == uppercase(text@),
{
    text.to_uppercase()
}

/// The level that a name in capitals stands for.
pub open spec fn level_named(name: Seq<char>) -> Option<LogLevel> {
    if name == "DEBUG"@ {
        Some(LogLevel::Debug)
    } else if name == "INFO"@ {
        Some(LogLevel::Info)
    } else if name == "WARN"@ {
        Some(LogLevel::Warn)
    } else if name == "ERROR"@ {
        Some(LogLevel::Error)
    } else {
        None
    }
}

/// The name of a level, in capitals.
pub open spec fn level_text(level: LogLevel) -> Seq<char> {
    match level {
        LogLevel::Debug => "DEBUG"@,
        LogLevel::Info => "INFO"@,
        LogLevel::Warn => "WARN"@,
        LogLevel::Error => "ERROR"@,
    }
}

/// The place of a level in the order of the levels.
pub open spec fn rank(level: LogLevel) -> nat {
    match level {
        LogLevel::Debug => 0,
        LogLevel::Info => 1,
        LogLevel::Warn => 2,
        LogLevel::Error => 3,
    }
}

fn is_text(text: &str, word: &str) -> (same: bool)
    ensures
        same == (text@ == word@),
{
    let a = String::from_str(text);
    let b = String::from_str(word);
    a == b
}

impl LogLevel {
    /// The level that a name in capitals stands for.
    pub fn named(name: &str) -> (level: Option<LogLevel>)
        ensures
            level == level_named(name@),
    {
        if is_text(name, "DEBUG") {
            Some(LogLevel::Debug)
        } else if is_text(name, "INFO") {
            Some(LogLevel::Info)
        } else if is_text(name, "WARN") {
            Some(LogLevel::Warn)
        } else if is_text(name, "ERROR") {
            Some(LogLevel::Error)
        } else {
            None
        }
    }

    /// The level that a name stands for, in capitals or not.
    pub fn from_str(s: &str) -> (result: Result<LogLevel, String>)
        ensures
            match level_named(uppercase(s@)) {
                Some(level) => result == Ok::<LogLevel, String>(level),
                None => result matches Err(message) && message@ == "Invalid log level: "@ + s@,
            },
    {
        let upper = to_uppercase(s);
        match LogLevel::named(upper.as_str()) {
            Some(level) => Ok(level),
            None => {
                let mut message = String::from_str("Invalid log level: ");
                message.append(s);
                Err(message)
            },
        }
    }

    /// The name of this level, in capitals.
    pub fn to_string(&self) -> (text: String)
        ensures
            text@ == level_text(*self),
    {
        match self {
            LogLevel::Debug => String::from_str("DEBUG"),
            LogLevel::Info => String::from_str("INFO"),
            LogLevel::Warn => String::from_str("WARN"),
            LogLevel::Error => String::from_str("ERROR"),
        }
    }

    fn place(&self) -> (place: u8)
        ensures
            place == rank(*self),
    {
        match self {
            LogLevel::Debug => 0,
            LogLevel::Info => 1,
            LogLevel::Warn => 2,
            LogLevel::Error => 3,
        }
    }

    /// Whether a message of this level is shown where messages from
    /// `threshold` on are.
    pub fn shows(&self, threshold: &LogLevel) -> (shown: bool)
        ensures
            shown == (rank(*self) >= rank(*threshold)),
    {
        self.place() >= threshold.place()
    }
}

/// The lines of a text from its character at `i` on, where `current` holds
/// the line being read and `found` the lines before it. A newline ends a
/// line; the text behind the last newline is a line too.
pub open spec fn lines_from(
    text: Seq<char>,
    i: nat,
    current: Seq<char>,
    found: Seq<Seq<char>>,
) -> Seq<Seq<char>>
    decreases text.len() - i,
{
    if i >= text.len() {
        found.push(current)
    } else if text[i as int] == '\n' {
        lines_from(text, i + 1, Seq::empty(), found.push(current))
    } else {
        lines_from(text, i + 1, current.push(text[i as int]), found)
    }
}

/// The lines of a text.
pub open spec fn lines_of(text: Seq<char>) -> Seq<Seq<char>> {
    lines_from(text, 0, Seq::empty(), Seq::empty())
}

/// The first line shown around the line `error_line`.
pub open spec fn first_shown(error_line: nat) -> nat {
    if error_line <= SURROUNDING_LINES {
        1
    } else {
        (error_line - SURROUNDING_LINES) as nat
    }
}

/// The last line shown around the line `error_line` of a text of `count`
/// lines.
pub open spec fn last_shown(error_line: nat, count: nat) -> nat {
    if error_line + SURROUNDING_LINES <= count {
        (error_line + SURROUNDING_LINES) as nat
    } else {
        count
    }
}

/// `count` times the character `c`.
pub open spec fn repeated(c: char, count: nat) -> Seq<char> {
    Seq::new(count, |i: int| c)
}

/// What stands before a line of an excerpt: the number of the line, put to
/// the right in five places, and a bar.
pub open spec fn gutter_text(number: nat) -> Seq<char> {
    let digits = nat_text(number);
    let padding: nat = if digits.len() <= 5 {
        (5 - digits.len()) as nat
    } else {
        0
    };
    repeated(' ', padding) + digits + "| "@
}

/// How many bytes a character takes in a text.
pub open spec fn width(c: char) -> nat {
    if (c as u32) < 0x80 {
        1
    } else if (c as u32) < 0x800 {
        2
    } else if (c as u32) < 0x10000 {
        3
    } else {
        4
    }
}

/// A caret for each byte of the first `count` characters of a text.
pub open spec fn carets_under(text: Seq<char>, count: nat) -> Seq<char>
    decreases count,
{
    if count == 0 || count > text.len() {
        Seq::empty()
    } else {
        carets_under(text, (count - 1) as nat) + repeated('^', width(text[count - 1]))
    }
}

/// What underlines the line of an error: the blank that stands under the
/// gutter, and a caret for each byte of the line.
pub struct Underline {
    pub padding: String,
    pub carets: String,
}

/// A line of an excerpt.
pub struct Row {
    pub gutter: String,
    pub text: String,
    pub underline: Option<Underline>,
}

/// The mathematical content of an underline.
pub struct UnderlineView {
    pub padding: Seq<char>,
    pub carets: Seq<char>,
}

/// The mathematical content of a row.
pub struct RowView {
    pub gutter: Seq<char>,
    pub text: Seq<char>,
    pub underline: Option<UnderlineView>,
}

impl View for Underline {
    type V = UnderlineView;

    open spec fn view(&self) -> UnderlineView {
        UnderlineView { padding: self.padding@, carets: self.carets@ }
    }
}

impl View for Row {
    type V = RowView;

    open spec fn view(&self) -> RowView {
        RowView {
            gutter: self.gutter@,
            text: self.text@,
            underline: match self.underline {
                Some(underline) => Some(underline@),
                None => None,
            },
        }
    }
}

/// The row for the line `number` of `lines`, where `error_line` is the line
/// of the error.
pub open spec fn row_at(lines: Seq<Seq<char>>, number: nat, error_line: nat) -> RowView {
    let text = lines[number - 1];
    RowView {
        gutter: gutter_text(number),
        text,
        underline: if number == error_line {
            Some(
                UnderlineView {
                    padding: repeated(' ', gutter_text(number).len()),
                    carets: carets_under(text, text.len()),
                },
            )
        } else {
            None
        },
    }
}

/// The rows of an excerpt from the line `first` through the line `last`.
pub open spec fn rows_between(
    lines: Seq<Seq<char>>,
    first: nat,
    last: nat,
    error_line: nat,
) -> Seq<RowView> {
    if first <= last {
        Seq::new((last - first + 1) as nat, |i: int| row_at(lines, (first + i) as nat, error_line))
    } else {
        Seq::empty()
    }
}

/// What is shown of a text for an error on its line `error_line`: that line,
/// underlined, and up to three lines before and behind it. An error that
/// speaks of no line shows nothing.
pub open spec fn excerpt_of(text: Seq<char>, error_line: nat) -> Seq<RowView> {
    if error_line < 1 {
        Seq::empty()
    } else {
        let lines = lines_of(text);
        rows_between(lines, first_shown(error_line), last_shown(error_line, lines.len()), error_line)
    }
}

/// The lines of `source`.
pub fn lines(source: &str) -> (found: Vec<String>)
    ensures
        Seq::new(found.len() as nat, |i: int| found[i]@) == lines_of(source@),
        found.len() >= 1,
{
    let mut found: Vec<String> = Vec::new();
    let mut current = String::new();
    let ghost mut shown: Seq<Seq<char>> = Seq::empty();
    for c in it: source.chars()
        invariant
            it.seq() == source@,
            shown == Seq::new(found.len() as nat, |i: int| found[i]@),
            lines_of(source@) == lines_from(source@, it.index() as nat, current@, shown),
    {
        if c == '\n' {
            proof {
                shown = shown.push(current@);
            }
            found.push(current);
            current = String::new();
            assert(shown =~= Seq::new(found.len() as nat, |i: int| found[i]@));
        } else {
            current.push(c);
        }
    }
    proof {
        shown = shown.push(current@);
    }
    found.push(current);
    assert(shown =~= Seq::new(found.len() as nat, |i: int| found[i]@));
    found
}

fn repeat(c: char, count: usize) -> (text: String)
    ensures
        text@ == repeated(c, count as nat),
{
    let mut text = String::new();
    let mut i: usize = 0;
    assert(text@ =~= repeated(c, 0));
    while i < count
        invariant
            i <= count,
            text@ == repeated(c, i as nat),
        decreases count - i,
    {
        text.push(c);
        i += 1;
        assert(text@ =~= repeated(c, i as nat));
    }
    text
}

/// A caret for each byte of `line`.
fn carets(line: &str) -> (text: String)
    ensures
        text@ == carets_under(line@, line@.len()),
{
    let mut text = String::new();
    for c in it: line.chars()
        invariant
            it.seq() == line@,
            text@ == carets_under(line@, it.index() as nat),
    {
        let code = c as u32;
        text.push('^');
        if code >= 0x80 {
            text.push('^');
        }
        if code >= 0x800 {
            text.push('^');
        }
        if code >= 0x10000 {
            text.push('^');
        }
        proof {
            assert(text@ =~= carets_under(line@, it.index() as nat) + repeated('^', width(c)));
        }
    }
    text
}

/// What stands before the line `number` of an excerpt.
pub fn gutter(number: usize) -> (text: String)
    ensures
        text@ == gutter_text(number as nat),
{
    let mut digits = String::new();
    push_usize(&mut digits, number);
    assert(digits@ =~= nat_text(number as nat));
    let width = digits.as_str().unicode_len();
    let padding = if width <= 5 {
        5 - width
    } else {
        0
    };
    let mut text = repeat(' ', padding);
    text.append(digits.as_str());
    text.append("| ");
    text
}

/// The first and the last line to show around the line `error_line` of a
/// text of `count` lines.
pub fn window(error_line: usize, count: usize) -> (bounds: (usize, usize))
    ensures
        bounds.0 == first_shown(error_line as nat),
        bounds.1 == last_shown(error_line as nat, count as nat),
{
    let start = if error_line <= SURROUNDING_LINES {
        1
    } else {
        error_line - SURROUNDING_LINES
    };
    let end = if error_line <= count && count - error_line >= SURROUNDING_LINES {
        error_line + SURROUNDING_LINES
    } else {
        count
    };
    (start, end)
}

/// What is shown of `source` for an error on its line `error_line`.
pub fn excerpt(error_line: usize, source: &str) -> (rows: Vec<Row>)
    ensures
        Seq::new(rows.len() as nat, |i: int| rows[i]@) == excerpt_of(source@, error_line as nat),
{
    let mut rows: Vec<Row> = Vec::new();
    if error_line < 1 {
        assert(Seq::new(rows.len() as nat, |i: int| rows[i]@) =~= Seq::<RowView>::empty());
        return rows;
    }
    let all = lines(source);
    let ghost texts = lines_of(source@);
    let (start, end) = window(error_line, all.len());
    if start > end {
        assert(Seq::new(rows.len() as nat, |i: int| rows[i]@) =~= Seq::<RowView>::empty());
        return rows;
    }
    let mut i: usize = start - 1;
    while i < end
        invariant
            1 <= start <= i + 1 <= end + 1,
            end <= all.len(),
            texts == Seq::new(all.len() as nat, |k: int| all[k]@),
            rows.len() == i + 1 - start,
            forall|k: int|
                0 <= k < rows.len() ==> (#[trigger] rows[k])@ == row_at(
                    texts,
                    (start + k) as nat,
                    error_line as nat,
                ),
        decreases end - i,
    {
        let number = i + 1;
        let line = &all[i];
        let before = gutter(number);
        let underline = if number == error_line {
            let width = before.as_str().unicode_len();
            Some(Underline { padding: repeat(' ', width), carets: carets(line.as_str()) })
        } else {
            None
        };
        let row = Row { gutter: before, text: line.clone(), underline };
        assert(row@ == row_at(texts, number as nat, error_line as nat));
        rows.push(row);
        i += 1;
    }
    assert(Seq::new(rows.len() as nat, |i: int| rows[i]@) =~= rows_between(
        texts,
        start as nat,
        end as nat,
        error_line as nat,
    ));
    rows
}

} // verus!
