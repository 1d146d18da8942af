//! A text held in memory, read by position.
use vstd::prelude::*;
use lexer_rs::CharStream;
use vstd::string::*;
use crate::reader::position::Position;
use crate::reader::span::Span;
use crate::text::{byte_len, lemma_byte_len_bounds, lemma_byte_len_is_encoded_len, lemma_byte_len_prefix};

verus! {

/// The line of the position before character `i` of `text`: one more than
/// the number of newlines among the first `i` characters.
pub open spec fn line_at(text: Seq<char>, i: int) -> int
    decreases i,
{
    if i <= 0 {
        1
    } else if text[i - 1] == '\n' {
        line_at(text, i - 1) + 1
    } else {
        line_at(text, i - 1)
    }
}

/// The column of the position before character `i` of `text`: one more than
/// the number of characters between the last newline before it and itself.
pub open spec fn column_at(text: Seq<char>, i: int) -> int
    decreases i,
{
    if i <= 0 {
        1
    } else if text[i - 1] == '\n' {
        1
    } else {
        column_at(text, i - 1) + 1
    }
}

/// Whether `p` is the position before character `p.index` of `text` (or at
/// its end), with the byte offset, line and column that the characters
/// before it give.
pub open spec fn locates(text: Seq<char>, p: Position) -> bool {
    &&& p.index <= text.len()
    &&& p.byte == byte_len(text.subrange(0, p.index as int))
    &&& p.line == line_at(text, p.index as int)
    &&& p.column == column_at(text, p.index as int)
}

/// The position before character `i` of `text`.
pub open spec fn position_at(text: Seq<char>, i: int) -> Position {
    Position {
        byte: byte_len(text.subrange(0, i)) as usize,
        line: line_at(text, i) as usize,
        column: column_at(text, i) as usize,
        index: i as usize,
    }
}

/// The span of `text` from character `i` to character `j`.
pub open spec fn span_at(text: Seq<char>, i: int, j: int) -> Span {
    Span { start: position_at(text, i), end: position_at(text, j) }
}

/// Lines and columns are at least 1 and grow by at most one per character.
pub proof fn lemma_line_column_bounds(text: Seq<char>, i: int)
    requires
        0 <= i <= text.len(),
    ensures
        1 <= line_at(text, i) <= i + 1,
        1 <= column_at(text, i) <= i + 1,
    decreases i,
{
    if i > 0 {
        lemma_line_column_bounds(text, i - 1);
    }
}

/// The start of a text is a position of it.
pub proof fn lemma_locates_zero(text: Seq<char>)
    ensures
        locates(text, Position::spec_zero()),
{
    assert(text.subrange(0, 0) =~= Seq::<char>::empty());
}

/// Whether character `i` of `text`, or its end where `i` is its length,
/// starts at the byte offset `byte_ofs` of the text in UTF-8.
pub open spec fn starts_char(text: Seq<char>, byte_ofs: int, i: int) -> bool {
    0 <= i <= text.len() && byte_len(text.subrange(0, i)) == byte_ofs
}

/// The character at byte offset `byte_ofs` of `text`, by `peek_at` of
/// `lexer_rs::LexerOfStr`, with byte offsets for positions.
///
/// The offset has to be where a character of the text starts, or its end:
/// the outside function reads the text from there without a test. It gives
/// the character that starts there, and `None` at the end of the text.
#[verifier::external_body]
fn peek_str_at(text: &str, byte_ofs: usize) -> (r: Option<char>)
    requires
        exists|i: int| starts_char(text@, byte_ofs as int, i),
    ensures
        forall|i: int|
            starts_char(text@, byte_ofs as int, i) ==> r == (if i < text@.len() {
                Some(text@[i])
            } else {
                None::<char>
            }),
{
    lexer_rs::LexerOfStr::<usize, (), ()>::new(text).peek_at(&byte_ofs)
}

/// The text between the byte offsets `start` and `end` of `text`, by
/// `get_text` of `lexer_rs::LexerOfStr`, with byte offsets for positions.
///
/// Each offset has to be where a character of the text starts, or its end,
/// and `start` must not lie after `end`: the outside function slices the
/// text there without a test. It gives the characters from the one that
/// starts at `start` up to the one before `end`.
#[verifier::external_body]
fn str_between(text: &str, start: usize, end: usize) -> (r: String)
    requires
        exists|i: int, j: int|
            starts_char(text@, start as int, i) && starts_char(text@, end as int, j) && i <= j,
    ensures
        forall|i: int, j: int|
            starts_char(text@, start as int, i) && starts_char(text@, end as int, j) && i <= j
                ==> r@ == text@.subrange(i, j),
{
    lexer_rs::LexerOfStr::<usize, (), ()>::new(text).get_text(start, end).to_string()
}

/// A text in memory, as a sequence of characters that can be read at any
/// position of it.
pub struct StringReader {
    text: String,
}

impl View for StringReader {
    type V = Seq<char>;

    closed spec fn view(&self) -> Seq<char> {
        self.text@
    }
}

impl StringReader {
    #[verifier::type_invariant]
    spec fn fits(&self) -> bool {
        byte_len(self.text@) < usize::MAX
    }

    /// Whether `p` is a position of this text.
    pub open spec fn has(&self, p: Position) -> bool {
        locates(self@, p)
    }

    /// A position of this text is the one that its character index gives.
    pub proof fn lemma_has(&self, p: Position)
        requires
            self.has(p),
        ensures
            p == position_at(self@, p.index as int),
            p.index <= self@.len(),
    {
    }

    /// A reader of the text `s`.
    pub fn new(s: &str) -> (r: StringReader)
        requires
            s.spec_bytes().len() < usize::MAX,
        ensures
            r@ == s@,
    {
        proof {
            lemma_byte_len_is_encoded_len(s@);
        }
        StringReader { text: String::from_str(s) }
    }

    /// A reader of the text `s`, unless `s` is too long for its lines and
    /// columns to be counted: that is so where it takes as many bytes as the
    /// greatest number.
    pub fn of_str(s: &str) -> (r: Option<StringReader>)
        ensures
            match r {
                Some(reader) => reader@ == s@ && s.spec_bytes().len() < usize::MAX,
                None => s.spec_bytes().len() >= usize::MAX,
            },
    {
        let bytes = s.as_bytes();
        if bytes.len() < usize::MAX {
            Some(StringReader::new(s))
        } else {
            None
        }
    }

    /// The number of characters of the text.
    pub fn len(&self) -> (n: usize)
        ensures
            n == self@.len(),
            n < usize::MAX,
    {
        proof {
            use_type_invariant(self);
            lemma_byte_len_bounds(self.text@);
        }
        self.text.as_str().unicode_len()
    }

    /// The character at position `p`, or `None` at the end of the text.
    pub fn peek_at(&self, p: &Position) -> (r: Option<char>)
        requires
            self.has(*p),
        ensures
            r == (if p.index < self@.len() {
                Some(self@[p.index as int])
            } else {
                None
            }),
    {
        assert(starts_char(self.text@, p.byte as int, p.index as int));
        peek_str_at(self.text.as_str(), p.byte)
    }

    /// The position after the character at `p`.
    pub fn consumed_char(&self, p: Position) -> (q: Position)
        requires
            self.has(p),
            p.index < self@.len(),
        ensures
            self.has(q),
            q.index == p.index + 1,
            q.follows(p, self@[p.index as int]),
    {
        let ch = self.peek_at(&p).unwrap();
        proof {
            use_type_invariant(self);
            let text = self.text@;
            let i = p.index as int;
            lemma_byte_len_prefix(text, i + 1);
            lemma_line_column_bounds(text, i);
            lemma_byte_len_bounds(text);
            assert(text.subrange(0, i + 1).drop_last() =~= text.subrange(0, i));
            assert(text.subrange(0, i + 1).last() == ch);
        }
        p.advance_by_char(ch)
    }

    /// The text between two positions.
    pub fn get_text(&self, start: Position, end: Position) -> (s: String)
        requires
            self.has(start),
            self.has(end),
            start.index <= end.index,
        ensures
            s@ == self@.subrange(start.index as int, end.index as int),
    {
        assert(starts_char(self.text@, start.byte as int, start.index as int));
        assert(starts_char(self.text@, end.byte as int, end.index as int));
        str_between(self.text.as_str(), start.byte, end.byte)
    }
}

} // verus!
