//! A position in a text.
use vstd::prelude::*;
use crate::text::{char_width, decimal_digits, push_decimal, utf8_width};

verus! {

/// A position in a text: the byte offset in UTF-8, the line and the column,
/// and the number of characters before the position.
///
/// Lines and columns are counted from 1, bytes and characters from 0.
#[derive(Clone, Copy, Debug, PartialEq, Eq, Structural)]
pub struct Position {
    /// Offset in bytes from the start of the text
    pub byte: usize,
    /// Line number, starting at 1
    pub line: usize,
    /// Column number within the line, starting at 1
    pub column: usize,
    /// Number of characters before the position
    pub index: usize,
}

/// The position that follows `p` once `ch` has been read, as unbounded
/// integers `(byte, line, column, index)`.
pub open spec fn advanced(p: Position, ch: char) -> (int, int, int, int) {
    if ch == '\n' {
        (p.byte + utf8_width(ch), p.line + 1, 1, p.index + 1)
    } else {
        (p.byte + utf8_width(ch), p.line as int, p.column + 1, p.index + 1)
    }
}

impl Position {
    /// The position at the start of any text.
    pub open spec fn spec_zero() -> Position {
        Position { byte: 0, line: 1, column: 1, index: 0 }
    }

    /// Whether `self` is the position just after `ch`, read at `p`.
    pub open spec fn follows(self, p: Position, ch: char) -> bool {
        advanced(p, ch) == (self.byte as int, self.line as int, self.column as int, self.index as int)
    }

    /// The position at the start of a text: byte 0, line 1, column 1.
    pub fn zero() -> (p: Position)
        ensures
            p == Position::spec_zero(),
    {
        Position { byte: 0, line: 1, column: 1, index: 0 }
    }

    /// The canonical position where none is known: the start of a text.
    pub fn none() -> (p: Position)
        ensures
            p == Position::spec_zero(),
    {
        Position::zero()
    }

    /// The position after reading `ch` at this position: the byte offset
    /// grows by the length of `ch` in UTF-8; a newline starts the next line
    /// at column 1, any other character moves one column on.
    pub fn advance_by_char(self, ch: char) -> (p: Position)
        requires
            self.byte + utf8_width(ch) <= usize::MAX,
            self.line < usize::MAX,
            self.column < usize::MAX,
            self.index < usize::MAX,
        ensures
            p.follows(self, ch),
    {
        let w = char_width(ch);
        if ch == '\n' {
            Position { byte: self.byte + w, line: self.line + 1, column: 1, index: self.index + 1 }
        } else {
            Position {
                byte: self.byte + w,
                line: self.line,
                column: self.column + 1,
                index: self.index + 1,
            }
        }
    }

    /// The position as text for people: the line, `:`, and the column.
    pub open spec fn spec_to_string(self) -> Seq<char> {
        decimal_digits(self.line as nat) + seq![':'] + decimal_digits(self.column as nat)
    }

    /// The position as text for people: the line, `:`, and the column.
    pub fn to_string(&self) -> (s: String)
        ensures
            s@ == self.spec_to_string(),
    {
        let mut s = String::new();
        self.push_to(&mut s);
        assert(s@ =~= self.spec_to_string());
        s
    }

    /// Appends the position as text to `s`.
    pub fn push_to(&self, s: &mut String)
        ensures
            final(s)@ == old(s)@ + self.spec_to_string(),
    {
        push_decimal(s, self.line);
        s.push(':');
        push_decimal(s, self.column);
        assert(s@ =~= old(s)@ + self.spec_to_string());
    }

    /// The byte offset of the position.
    pub fn byte_ofs(&self) -> (r: usize)
        ensures
            r == self.byte,
    {
        self.byte
    }

    /// The line of the position, counted from 1.
    pub fn line(&self) -> (r: usize)
        ensures
            r == self.line,
    {
        self.line
    }

    /// The column of the position, counted from 1.
    pub fn column(&self) -> (r: usize)
        ensures
            r == self.column,
    {
        self.column
    }
}

impl Default for Position {
    /// The position at the start of a text.
    fn default() -> (p: Position)
        ensures
            p == Position::spec_zero(),
    {
        Position::zero()
    }
}

} // verus!
