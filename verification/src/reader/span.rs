//! A span of a text between two positions.
use vstd::prelude::*;
use crate::reader::position::Position;

verus! {

/// The part of a text from `start`, inclusive, to `end`, exclusive.
#[derive(Clone, Copy, Debug, PartialEq, Eq, Structural)]
pub struct Span {
    /// Where the span starts
    pub start: Position,
    /// Where the span ends; the character here is not part of the span
    pub end: Position,
}

impl Span {
    /// Whether the span ends at or after its start.
    pub open spec fn ordered(self) -> bool {
        self.start.index <= self.end.index
    }

    /// Whether `inner` lies within this span: a span contains every span
    /// that starts and ends inside it, and touches an empty one at either
    /// of its ends.
    pub open spec fn covers(self, inner: Span) -> bool {
        self.start.index <= inner.start.index && inner.end.index <= self.end.index
    }

    /// The span as text for people: its start, `->`, and its end.
    pub open spec fn spec_to_string(self) -> Seq<char> {
        self.start.spec_to_string() + seq!['-', '>'] + self.end.spec_to_string()
    }

    /// The span as text for people: its start, `->`, and its end.
    pub fn to_string(&self) -> (s: String)
        ensures
            s@ == self.spec_to_string(),
    {
        let mut s = String::new();
        self.push_to(&mut s);
        assert(s@ =~= self.spec_to_string());
        s
    }

    /// Appends the span as text to `s`.
    pub fn push_to(&self, s: &mut String)
        ensures
            final(s)@ == old(s)@ + self.spec_to_string(),
    {
        self.start.push_to(s);
        s.push('-');
        s.push('>');
        self.end.push_to(s);
        assert(s@ =~= old(s)@ + self.spec_to_string());
    }

    /// The span from `start` to `end`.
    pub fn new(start: Position, end: Position) -> (s: Span)
        ensures
            s == (Span { start, end }),
    {
        Span { start, end }
    }

    /// The empty span at `posn`.
    pub fn new_at(posn: &Position) -> (s: Span)
        ensures
            s == (Span { start: *posn, end: *posn }),
    {
        Span { start: *posn, end: *posn }
    }

    /// This span with its end moved to `posn`.
    pub fn end_at(self, posn: &Position) -> (s: Span)
        ensures
            s == (Span { start: self.start, end: *posn }),
    {
        Span { start: self.start, end: *posn }
    }

    /// The span from `start` to `end`.
    pub fn between(start: &Position, end: &Position) -> (s: Span)
        ensures
            s == (Span { start: *start, end: *end }),
    {
        Span { start: *start, end: *end }
    }

    /// The position at which the span starts.
    pub fn start(&self) -> (p: &Position)
        ensures
            *p == self.start,
    {
        &self.start
    }

    /// The position at which the span ends.
    pub fn end(&self) -> (p: &Position)
        ensures
            *p == self.end,
    {
        &self.end
    }
}

} // verus!
