//! The errors of the markup names and of the HML reader.
use vstd::prelude::*;
use vstd::string::*;
use crate::reader::position::Position;
use crate::reader::span::Span;
use crate::text::{decimal_digits, push_decimal};

verus! {

/// An error in a markup name.
#[derive(Debug, Clone, PartialEq, Eq)]
pub enum MarkupError {
    /// An empty name was given where a name is needed
    EmptyName {  },
    /// A prefix was used that no namespace is declared for
    UnmappedPrefix {
        /// The prefix
        prefix: String,
    },
    /// A name of a bad form, such as `a:b:c`
    BadName {
        /// The name
        name: String,
    },
}

/// The result of an operation on markup names.
pub type MarkupResult<T> = Result<T, MarkupError>;

/// What an error in a markup name holds, its strings taken as sequences of
/// characters.
pub ghost enum MarkupErrorView {
    EmptyName,
    UnmappedPrefix { prefix: Seq<char> },
    BadName { name: Seq<char> },
}

impl MarkupErrorView {
    /// The error in words.
    pub open spec fn message(self) -> Seq<char> {
        match self {
            MarkupErrorView::EmptyName => "empty name"@,
            MarkupErrorView::UnmappedPrefix { prefix } => "unmapped_prefix "@ + prefix,
            MarkupErrorView::BadName { name } => "bad name "@ + name,
        }
    }
}

impl View for MarkupError {
    type V = MarkupErrorView;

    open spec fn view(&self) -> MarkupErrorView {
        match *self {
            MarkupError::EmptyName {  } => MarkupErrorView::EmptyName,
            MarkupError::UnmappedPrefix { prefix } => MarkupErrorView::UnmappedPrefix {
                prefix: prefix@,
            },
            MarkupError::BadName { name } => MarkupErrorView::BadName { name: name@ },
        }
    }
}

impl MarkupError {
    /// The error in words.
    pub fn to_string(&self) -> (s: String)
        ensures
            s@ == self@.message(),
    {
        match self {
            MarkupError::EmptyName {  } => String::from_str("empty name"),
            MarkupError::UnmappedPrefix { prefix } => {
                let mut s = String::from_str("unmapped_prefix ");
                s.append(prefix.as_str());
                s
            },
            MarkupError::BadName { name } => {
                let mut s = String::from_str("bad name ");
                s.append(name.as_str());
                s
            },
        }
    }

    /// The error for an empty name.
    pub fn empty_name() -> (e: MarkupError)
        ensures
            e@ == MarkupErrorView::EmptyName,
    {
        MarkupError::EmptyName {  }
    }

    /// The error for the use of `prefix` where nothing is declared for it.
    pub fn unmapped_prefix(prefix: &str) -> (e: MarkupError)
        ensures
            e@ == (MarkupErrorView::UnmappedPrefix { prefix: prefix@ }),
    {
        MarkupError::UnmappedPrefix { prefix: String::from_str(prefix) }
    }

    /// The error for the malformed name `name`.
    pub fn bad_name(name: &str) -> (e: MarkupError)
        ensures
            e@ == (MarkupErrorView::BadName { name: name@ }),
    {
        MarkupError::BadName { name: String::from_str(name) }
    }
}

/// An error of the HML reader. Every kind but `BeyondEndOfTokens` says
/// where in the text it arose.
#[derive(Debug, Clone, PartialEq, Eq)]
#[allow(inconsistent_fields)]
pub enum HmlError {
    /// The source of the text failed
    IoError {
        /// Where the reader was
        span: Span,
        /// What the source reported
        source: String,
    },
    /// A name could not be resolved
    MarkupError {
        /// The token that introduced the name
        span: Span,
        /// What is wrong with the name
        source: MarkupError,
    },
    /// A run of hashes was not followed by a tag name
    ExpectedTagName {
        /// The hashes
        span: Span,
    },
    /// A tag was not followed by white space or the end of the text
    ExpectedWhitespaceAfterTag {
        /// The tag
        span: Span,
    },
    /// A character that starts no token
    UnexpectedCharacter {
        /// Where the character is
        span: Span,
        /// The character
        ch: char,
    },
    /// A tag with more hashes than one more than the current depth
    UnexpectedTagIndent {
        /// The tag
        span: Span,
        /// The greatest depth that was allowed
        depth: usize,
    },
    /// An event was asked for after the end of the document
    BeyondEndOfTokens,
    /// An attribute where no element is being opened
    UnexpectedAttribute {
        /// The attribute
        span: Span,
        /// The attribute's name, as `prefix:name`
        attr: String,
    },
    /// A newline in a quoted string that has no hashes around it
    UnexpectedNewlineInQuotedString {
        /// The string up to the newline
        span: Span,
    },
    /// Something else than `=` after an attribute's name
    ExpectedEquals {
        /// The attribute's name
        span: Span,
        /// The character found
        ch: char,
    },
    /// The text ended inside a token
    UnexpectedEOF {
        /// The unfinished token
        span: Span,
    },
}

/// The result of an operation of the HML reader.
pub type HmlResult<T> = Result<T, HmlError>;

/// What an error of the HML reader holds, its strings taken as sequences of
/// characters.
#[allow(inconsistent_fields)]
pub ghost enum HmlErrorView {
    IoError { span: Span, source: Seq<char> },
    MarkupError { span: Span, source: MarkupErrorView },
    ExpectedTagName { span: Span },
    ExpectedWhitespaceAfterTag { span: Span },
    UnexpectedCharacter { span: Span, ch: char },
    UnexpectedTagIndent { span: Span, depth: usize },
    BeyondEndOfTokens,
    UnexpectedAttribute { span: Span, attr: Seq<char> },
    UnexpectedNewlineInQuotedString { span: Span },
    ExpectedEquals { span: Span, ch: char },
    UnexpectedEOF { span: Span },
}

impl HmlErrorView {
    /// The error in words.
    pub open spec fn message(self) -> Seq<char> {
        match self {
            HmlErrorView::IoError { source, .. } => "io error "@ + source,
            HmlErrorView::MarkupError { source, .. } => "markup error "@ + source.message(),
            HmlErrorView::ExpectedTagName { .. } => "Expected a tag name after hashes"@,
            HmlErrorView::ExpectedWhitespaceAfterTag { .. } => "Expected whitespace after tag"@,
            HmlErrorView::UnexpectedCharacter { ch, .. } => "Unexpected character '"@ + seq![ch]
                + seq!['\''],
            HmlErrorView::UnexpectedTagIndent { depth, .. } => "Expected a tag indent of at most "@
                + decimal_digits(depth as nat),
            HmlErrorView::BeyondEndOfTokens => "Attempt to parse beyond end of tokens, probably a bug"@,
            HmlErrorView::UnexpectedAttribute { attr, .. } => "Found attribute when not expected "@
                + attr,
            HmlErrorView::UnexpectedNewlineInQuotedString { .. } => {
                "Unexpected newline in quoted string"@
            },
            HmlErrorView::ExpectedEquals { ch, .. } => "Expected equals, but found '"@ + seq![ch]
                + seq!['\''],
            HmlErrorView::UnexpectedEOF { .. } => "Unexpected EOF"@,
        }
    }
}

impl View for HmlError {
    type V = HmlErrorView;

    open spec fn view(&self) -> HmlErrorView {
        match *self {
            HmlError::IoError { span, source } => HmlErrorView::IoError { span, source: source@ },
            HmlError::MarkupError { span, source } => HmlErrorView::MarkupError {
                span,
                source: source@,
            },
            HmlError::ExpectedTagName { span } => HmlErrorView::ExpectedTagName { span },
            HmlError::ExpectedWhitespaceAfterTag { span } => HmlErrorView::ExpectedWhitespaceAfterTag {
                span,
            },
            HmlError::UnexpectedCharacter { span, ch } => HmlErrorView::UnexpectedCharacter {
                span,
                ch,
            },
            HmlError::UnexpectedTagIndent { span, depth } => HmlErrorView::UnexpectedTagIndent {
                span,
                depth,
            },
            HmlError::BeyondEndOfTokens => HmlErrorView::BeyondEndOfTokens,
            HmlError::UnexpectedAttribute { span, attr } => HmlErrorView::UnexpectedAttribute {
                span,
                attr: attr@,
            },
            HmlError::UnexpectedNewlineInQuotedString { span } => {
                HmlErrorView::UnexpectedNewlineInQuotedString { span }
            },
            HmlError::ExpectedEquals { span, ch } => HmlErrorView::ExpectedEquals { span, ch },
            HmlError::UnexpectedEOF { span } => HmlErrorView::UnexpectedEOF { span },
        }
    }
}

impl HmlError {
    /// The span that the error carries, if it carries one.
    pub open spec fn spec_span(self) -> Option<Span> {
        match self {
            HmlError::IoError { span, .. } => Some(span),
            HmlError::MarkupError { span, .. } => Some(span),
            HmlError::ExpectedTagName { span } => Some(span),
            HmlError::ExpectedWhitespaceAfterTag { span } => Some(span),
            HmlError::UnexpectedCharacter { span, .. } => Some(span),
            HmlError::UnexpectedTagIndent { span, .. } => Some(span),
            HmlError::BeyondEndOfTokens => None,
            HmlError::UnexpectedAttribute { span, .. } => Some(span),
            HmlError::UnexpectedNewlineInQuotedString { span } => Some(span),
            HmlError::ExpectedEquals { span, .. } => Some(span),
            HmlError::UnexpectedEOF { span } => Some(span),
        }
    }

    /// The error in words.
    pub fn to_string(&self) -> (s: String)
        ensures
            s@ == self@.message(),
    {
        match self {
            HmlError::IoError { source, .. } => {
                let mut s = String::from_str("io error ");
                s.append(source.as_str());
                s
            },
            HmlError::MarkupError { source, .. } => {
                let mut s = String::from_str("markup error ");
                let m = source.to_string();
                s.append(m.as_str());
                s
            },
            HmlError::ExpectedTagName { .. } => String::from_str("Expected a tag name after hashes"),
            HmlError::ExpectedWhitespaceAfterTag { .. } => String::from_str(
                "Expected whitespace after tag",
            ),
            HmlError::UnexpectedCharacter { ch, .. } => {
                let mut s = String::from_str("Unexpected character '");
                s.push(*ch);
                s.push('\'');
                assert(s@ =~= self@.message());
                s
            },
            HmlError::UnexpectedTagIndent { depth, .. } => {
                let mut s = String::from_str("Expected a tag indent of at most ");
                push_decimal(&mut s, *depth);
                s
            },
            HmlError::BeyondEndOfTokens => String::from_str(
                "Attempt to parse beyond end of tokens, probably a bug",
            ),
            HmlError::UnexpectedAttribute { attr, .. } => {
                let mut s = String::from_str("Found attribute when not expected ");
                s.append(attr.as_str());
                s
            },
            HmlError::UnexpectedNewlineInQuotedString { .. } => String::from_str(
                "Unexpected newline in quoted string",
            ),
            HmlError::ExpectedEquals { ch, .. } => {
                let mut s = String::from_str("Expected equals, but found '");
                s.push(*ch);
                s.push('\'');
                assert(s@ =~= self@.message());
                s
            },
            HmlError::UnexpectedEOF { .. } => String::from_str("Unexpected EOF"),
        }
    }

    /// Fails with `UnexpectedEOF` over the span from `start` to `end`.
    pub fn unexpected_eof<T>(start: &Position, end: &Position) -> (r: HmlResult<T>)
        ensures
            r == Err::<T, HmlError>(HmlError::UnexpectedEOF { span: Span { start: *start, end: *end } }),
    {
        Err(HmlError::UnexpectedEOF { span: Span::between(start, end) })
    }

    /// Fails with `UnexpectedCharacter` for `ch` over the span from `start`
    /// to `end`.
    pub fn unexpected_character<T>(start: &Position, end: &Position, ch: char) -> (r: HmlResult<T>)
        ensures
            r == Err::<T, HmlError>(
                HmlError::UnexpectedCharacter { span: Span { start: *start, end: *end }, ch },
            ),
    {
        Err(HmlError::UnexpectedCharacter { span: Span::between(start, end), ch })
    }

    /// Fails with `UnexpectedNewlineInQuotedString` over the span from
    /// `start` to `end`.
    pub fn unexpected_newline_in_string<T>(start: &Position, end: &Position) -> (r: HmlResult<T>)
        ensures
            r == Err::<T, HmlError>(
                HmlError::UnexpectedNewlineInQuotedString { span: Span { start: *start, end: *end } },
            ),
    {
        Err(HmlError::UnexpectedNewlineInQuotedString { span: Span::between(start, end) })
    }

    /// Fails with `ExpectedEquals`, `ch` being what was found instead, over
    /// the span from `start` to `end`.
    pub fn expected_equals<T>(start: &Position, end: &Position, ch: char) -> (r: HmlResult<T>)
        ensures
            r == Err::<T, HmlError>(
                HmlError::ExpectedEquals { span: Span { start: *start, end: *end }, ch },
            ),
    {
        Err(HmlError::ExpectedEquals { span: Span::between(start, end), ch })
    }

    /// Fails with `BeyondEndOfTokens`.
    pub fn no_more_events<T>() -> (r: HmlResult<T>)
        ensures
            r == Err::<T, HmlError>(HmlError::BeyondEndOfTokens),
    {
        Err(HmlError::BeyondEndOfTokens)
    }

    /// Fails with `UnexpectedTagIndent` over `span`, `depth` being the
    /// greatest depth that was allowed.
    pub fn unexpected_tag_indent<T>(span: Span, depth: usize) -> (r: HmlResult<T>)
        ensures
            r == Err::<T, HmlError>(HmlError::UnexpectedTagIndent { span, depth }),
    {
        Err(HmlError::UnexpectedTagIndent { span, depth })
    }

    /// Fails with `UnexpectedAttribute` over `span`, for the attribute
    /// rendered as `prefix:name`.
    pub fn unexpected_attribute<T>(span: Span, prefix: &str, name: &str) -> (r: HmlResult<T>)
        ensures
            r matches Err(e) && e@ == (HmlErrorView::UnexpectedAttribute {
                span,
                attr: prefix@ + seq![':'] + name@,
            }),
    {
        let mut attr = String::from_str(prefix);
        attr.push(':');
        attr.append(name);
        assert(attr@ =~= prefix@ + seq![':'] + name@);
        Err(HmlError::UnexpectedAttribute { span, attr })
    }

    /// The error for a failure of the source of the text, `source` being
    /// what the source reported.
    pub fn io_error(span: Span, source: String) -> (e: HmlError)
        ensures
            e == (HmlError::IoError { span, source }),
    {
        HmlError::IoError { span, source }
    }

    /// Turns the result of reading from a source into a result of the
    /// reader: a failure becomes an `IoError` over `span`.
    pub fn of_io_result<T>(span: Span, r: Result<T, String>) -> (res: HmlResult<T>)
        ensures
            res == (match r {
                Ok(t) => Ok::<T, HmlError>(t),
                Err(source) => Err(HmlError::IoError { span, source }),
            }),
    {
        match r {
            Ok(t) => Ok(t),
            Err(e) => Err(HmlError::io_error(span, e)),
        }
    }

    /// The span of the error: every kind has one but `BeyondEndOfTokens`.
    pub fn borrow_span(&self) -> (r: Option<&Span>)
        ensures
            match r {
                Some(s) => self.spec_span() == Some(*s),
                None => self.spec_span() is None,
            },
    {
        match self {
            HmlError::IoError { span, .. } => Some(span),
            HmlError::MarkupError { span, .. } => Some(span),
            HmlError::ExpectedTagName { span } => Some(span),
            HmlError::ExpectedWhitespaceAfterTag { span } => Some(span),
            HmlError::UnexpectedCharacter { span, .. } => Some(span),
            HmlError::UnexpectedTagIndent { span, .. } => Some(span),
            HmlError::BeyondEndOfTokens => None,
            HmlError::UnexpectedAttribute { span, .. } => Some(span),
            HmlError::UnexpectedNewlineInQuotedString { span } => Some(span),
            HmlError::ExpectedEquals { span, .. } => Some(span),
            HmlError::UnexpectedEOF { span } => Some(span),
        }
    }

    /// Turns a result on names into a result of the reader: a failure
    /// becomes a `MarkupError` over `span`.
    pub fn map_markup_error<T>(result: MarkupResult<T>, span: &Span) -> (res: HmlResult<T>)
        ensures
            res == (match result {
                Ok(t) => Ok::<T, HmlError>(t),
                Err(source) => Err(HmlError::MarkupError { span: *span, source }),
            }),
    {
        match result {
            Err(source) => Err(HmlError::MarkupError { source, span: *span }),
            Ok(t) => Ok(t),
        }
    }
}

} // verus!
