//! A character cursor over the query text that tracks line, column and
//! character offset, treating `\r`, `\n` and `\r\n` each as one line break.
use vstd::prelude::*;
use crate::text::chars_of;

verus! {

/// Whether the `n`-th character of `s` (counting from 1) starts a new line:
/// a `\r`, or a `\n` that does not complete a `\r\n`.
pub open spec fn breaks_line(s: Seq<char>, n: int) -> bool {
    s[n - 1] == '\r' || (s[n - 1] == '\n' && !(n >= 2 && s[n - 2] == '\r'))
}

/// The line number after the first `n` characters of `s`.
pub open spec fn line_at(s: Seq<char>, n: int) -> int
    decreases n,
{
    if n <= 0 {
        1
    } else if breaks_line(s, n) {
        line_at(s, n - 1) + 1
    } else {
        line_at(s, n - 1)
    }
}

/// The column number after the first `n` characters of `s`.
pub open spec fn column_at(s: Seq<char>, n: int) -> int
    decreases n,
{
    if n <= 0 {
        1
    } else if s[n - 1] == '\r' || s[n - 1] == '\n' {
        1
    } else {
        column_at(s, n - 1) + 1
    }
}

/// The character before position `n` of `s`, or `'\0'` at the start.
pub open spec fn previous_at(s: Seq<char>, n: int) -> char {
    if n <= 0 { '\0' } else { s[n - 1] }
}

/// A source position: line and column (both from 1) and the offset in characters.
#[derive(Debug, Clone, Copy)]
pub struct TokenLocation {
    pub line_number: usize,
    pub column_number: usize,
    pub offset: usize,
    /// The last character passed, used to recognise `\r\n`.
    pub previous: char,
}

impl TokenLocation {
    /// The location reached after the first `n` characters of `s`.
    pub open spec fn at(self, s: Seq<char>, n: int) -> bool {
        &&& self.line_number == line_at(s, n)
        &&& self.column_number == column_at(s, n)
        &&& self.offset == n
        &&& self.previous == previous_at(s, n)
    }

    /// The start of a text.
    pub fn new() -> (r: Self)
        ensures
            r.line_number == 1,
            r.column_number == 1,
            r.offset == 0,
            r.previous == '\0',
    {
        TokenLocation { line_number: 1, column_number: 1, offset: 0, previous: '\0' }
    }

    /// A placeholder location (line and column 0).
    pub fn uninit() -> (r: Self)
        ensures
            r.line_number == 0,
            r.column_number == 0,
            r.offset == 0,
            r.previous == '\0',
    {
        TokenLocation { line_number: 0, column_number: 0, offset: 0, previous: '\0' }
    }

    /// Moves past the character `c`.
    pub fn next_char(&mut self, c: char)
        requires
            old(self).line_number < usize::MAX,
            old(self).column_number < usize::MAX,
            old(self).offset < usize::MAX,
        ensures
            final(self).offset == old(self).offset + 1,
            final(self).previous == c,
            c == '\r' || (c == '\n' && old(self).previous != '\r') ==> {
                &&& final(self).line_number == old(self).line_number + 1
                &&& final(self).column_number == 1
            },
            c == '\n' && old(self).previous == '\r' ==> {
                &&& final(self).line_number == old(self).line_number
                &&& final(self).column_number == old(self).column_number
            },
            c != '\r' && c != '\n' ==> {
                &&& final(self).line_number == old(self).line_number
                &&& final(self).column_number == old(self).column_number + 1
            },
    {
        if c == '\r' {
            self.column_number = 1;
            self.line_number = self.line_number + 1;
        } else if c == '\n' {
            if self.previous != '\r' {
                self.column_number = 1;
                self.line_number = self.line_number + 1;
            }
        } else {
            self.column_number = self.column_number + 1;
        }
        self.offset = self.offset + 1;
        self.previous = c;
    }
}

/// Line and column never run ahead of the number of characters passed.
pub proof fn lemma_location_bounds(s: Seq<char>, n: int)
    requires
        0 <= n,
    ensures
        1 <= line_at(s, n) <= n + 1,
        1 <= column_at(s, n) <= n + 1,
    decreases n,
{
    if n > 0 {
        lemma_location_bounds(s, n - 1);
    }
}

/// After a `\r` the column is 1, so a following `\n` leaves it in place.
proof fn lemma_column_after_cr(s: Seq<char>, n: int)
    requires
        2 <= n <= s.len(),
        s[n - 2] == '\r',
    ensures
        column_at(s, n - 1) == 1,
{
}

/// A cursor over the characters of a text with one character of lookahead.
pub struct Scanner {
    chars: Vec<char>,
    index: usize,
    location: TokenLocation,
}

impl Scanner {
    /// The characters being scanned.
    pub closed spec fn text(&self) -> Seq<char> {
        self.chars@
    }

    /// How many characters have been consumed.
    pub closed spec fn position(&self) -> int {
        self.index as int
    }

    pub closed spec fn wf(&self) -> bool {
        &&& self.index <= self.chars.len()
        &&& self.chars.len() < usize::MAX
        &&& self.location.at(self.chars@, self.index as int)
    }

    pub fn new(text: &str) -> (r: Scanner)
        requires
            text@.len() < usize::MAX,
        ensures
            r.wf(),
            r.text() == text@,
            r.position() == 0,
    {
        Scanner { chars: chars_of(text), index: 0, location: TokenLocation::new() }
    }

    /// The location of the next character.
    pub fn location(&self) -> (r: TokenLocation)
        requires
            self.wf(),
        ensures
            r.at(self.text(), self.position()),
    {
        self.location
    }

    /// The next character, without consuming it.
    pub fn peek(&self) -> (r: Option<char>)
        requires
            self.wf(),
        ensures
            self.position() < self.text().len() ==> r == Some(self.text()[self.position()]),
            self.position() >= self.text().len() ==> r is None,
    {
        if self.index < self.chars.len() {
            Some(self.chars[self.index])
        } else {
            None
        }
    }

    /// Consumes the next character, if any.
    pub fn next(&mut self)
        requires
            old(self).wf(),
        ensures
            final(self).wf(),
            final(self).text() == old(self).text(),
            final(self).position() == if old(self).position() < old(self).text().len() {
                old(self).position() + 1
            } else {
                old(self).position()
            },
    {
        if self.index < self.chars.len() {
            let c = self.chars[self.index];
            proof {
                lemma_location_bounds(self.chars@, self.index as int);
                if self.index >= 1 && self.chars@[self.index - 1] == '\r' {
                    lemma_column_after_cr(self.chars@, self.index as int + 1);
                }
            }
            self.location.next_char(c);
            self.index = self.index + 1;
        }
    }
}

} // verus!
