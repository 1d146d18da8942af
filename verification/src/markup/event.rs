//! The events that a markup reader gives, one after another.
use vstd::prelude::*;
use vstd::string::*;
use crate::names::ids::NSNameId;
use crate::names::name::Name;
use crate::names::tag::{Tag, TagView};
use crate::reader::span::Span;

verus! {

/// How the content of an element is to be taken.
#[derive(Clone, Copy, Debug, PartialEq, Eq, Structural)]
pub enum ContentType {
    /// The content is to be taken as it stands
    Raw,
    /// Escapes in the content are still to be interpreted
    Interpretable,
    /// The content is white space only
    Whitespace,
}

/// The kind of an event.
#[derive(Debug, Copy, Clone, PartialEq, Eq, Structural)]
pub enum EventType {
    /// The start of the document, before any other event
    StartDocument,
    /// The end of the document, after which there is no event
    EndDocument,
    /// The start of an element
    StartElement,
    /// The end of an element
    EndElement,
    /// Content of an element
    Content,
    /// A processing instruction
    ProcessingInstruction,
    /// A comment
    Comment,
}

/// An event of a markup stream, with the span of the text that it stands
/// for.
#[derive(Debug)]
#[allow(inconsistent_fields)]
pub enum Event {
    /// The start of the document; `version` is 100 for version 1.00
    StartDocument { span: Span, version: usize },
    /// The end of the document
    EndDocument { span: Span },
    /// The start of an element, with its tag
    StartElement { span: Span, tag: Tag },
    /// The end of an element, with the name that the element started with
    EndElement { span: Span, name: Name },
    /// One piece of the content of an element
    Content { span: Span, ctype: ContentType, data: String },
    /// A processing instruction
    ProcessingInstruction { span: Span, name: NSNameId, data: Option<String> },
    /// A comment: its lines, a newline between each two of them, and the
    /// length in bytes of each line
    Comment { span: Span, data: String, lengths: Vec<usize> },
}

/// What an event holds, its strings taken as sequences of characters.
#[allow(inconsistent_fields)]
pub ghost enum EventView {
    StartDocument { span: Span, version: usize },
    EndDocument { span: Span },
    StartElement { span: Span, tag: TagView },
    EndElement { span: Span, name: Name },
    Content { span: Span, ctype: ContentType, data: Seq<char> },
    ProcessingInstruction { span: Span, name: NSNameId, data: Option<Seq<char>> },
    Comment { span: Span, data: Seq<char>, lengths: Seq<usize> },
}

impl EventView {
    /// The span of the event.
    pub open spec fn span(self) -> Span {
        match self {
            EventView::StartDocument { span, .. } => span,
            EventView::EndDocument { span } => span,
            EventView::StartElement { span, .. } => span,
            EventView::EndElement { span, .. } => span,
            EventView::Content { span, .. } => span,
            EventView::ProcessingInstruction { span, .. } => span,
            EventView::Comment { span, .. } => span,
        }
    }

    /// The kind of the event.
    pub open spec fn get_type(self) -> EventType {
        match self {
            EventView::StartDocument { .. } => EventType::StartDocument,
            EventView::EndDocument { .. } => EventType::EndDocument,
            EventView::StartElement { .. } => EventType::StartElement,
            EventView::EndElement { .. } => EventType::EndElement,
            EventView::Content { .. } => EventType::Content,
            EventView::ProcessingInstruction { .. } => EventType::ProcessingInstruction,
            EventView::Comment { .. } => EventType::Comment,
        }
    }
}

impl View for Event {
    type V = EventView;

    open spec fn view(&self) -> EventView {
        match *self {
            Event::StartDocument { span, version } => EventView::StartDocument { span, version },
            Event::EndDocument { span } => EventView::EndDocument { span },
            Event::StartElement { span, tag } => EventView::StartElement { span, tag: tag@ },
            Event::EndElement { span, name } => EventView::EndElement { span, name },
            Event::Content { span, ctype, data } => EventView::Content { span, ctype, data: data@ },
            Event::ProcessingInstruction { span, name, data } => EventView::ProcessingInstruction {
                span,
                name,
                data: match data {
                    Some(d) => Some(d@),
                    None => None,
                },
            },
            Event::Comment { span, data, lengths } => EventView::Comment {
                span,
                data: data@,
                lengths: lengths@,
            },
        }
    }
}

impl Event {
    /// The start of a document of the version `version`.
    pub fn start_document(span: Span, version: usize) -> (e: Self)
        ensures
            e@ == (EventView::StartDocument { span, version }),
    {
        Self::StartDocument { span, version }
    }

    /// The end of a document.
    pub fn end_document(span: Span) -> (e: Self)
        ensures
            e@ == (EventView::EndDocument { span }),
    {
        Self::EndDocument { span }
    }

    /// The start of the element with the tag `tag`.
    pub fn start_element(span: Span, tag: Tag) -> (e: Self)
        ensures
            e@ == (EventView::StartElement { span, tag: tag@ }),
    {
        Self::StartElement { span, tag }
    }

    /// The end of the element with the name `name`.
    pub fn end_element(span: Span, name: Name) -> (e: Self)
        ensures
            e@ == (EventView::EndElement { span, name }),
    {
        Self::EndElement { span, name }
    }

    /// A comment of the text `data`, whose lines have the lengths
    /// `lengths`.
    pub fn comment(span: Span, data: String, lengths: Vec<usize>) -> (e: Self)
        ensures
            e@ == (EventView::Comment { span, data: data@, lengths: lengths@ }),
    {
        Self::Comment { span, data, lengths }
    }

    /// Content of the kind `ctype`.
    pub fn content(span: Span, ctype: ContentType, data: String) -> (e: Self)
        ensures
            e@ == (EventView::Content { span, ctype, data: data@ }),
    {
        Self::Content { span, ctype, data }
    }

    /// Content that is to be taken as it stands.
    pub fn content_raw(span: Span, data: String) -> (e: Self)
        ensures
            e@ == (EventView::Content { span, ctype: ContentType::Raw, data: data@ }),
    {
        Self::content(span, ContentType::Raw, data)
    }

    /// Content whose escapes are still to be interpreted.
    pub fn content_int(span: Span, data: String) -> (e: Self)
        ensures
            e@ == (EventView::Content { span, ctype: ContentType::Interpretable, data: data@ }),
    {
        Self::content(span, ContentType::Interpretable, data)
    }

    /// Content that is white space.
    pub fn content_ws(span: Span, data: String) -> (e: Self)
        ensures
            e@ == (EventView::Content { span, ctype: ContentType::Whitespace, data: data@ }),
    {
        Self::content(span, ContentType::Whitespace, data)
    }

    /// The kind of the event.
    pub fn get_type(&self) -> (t: EventType)
        ensures
            t == self@.get_type(),
    {
        match self {
            Self::StartDocument { .. } => EventType::StartDocument,
            Self::EndDocument { .. } => EventType::EndDocument,
            Self::StartElement { .. } => EventType::StartElement,
            Self::EndElement { .. } => EventType::EndElement,
            Self::Content { .. } => EventType::Content,
            Self::ProcessingInstruction { .. } => EventType::ProcessingInstruction,
            Self::Comment { .. } => EventType::Comment,
        }
    }

    /// The span of the event.
    pub fn borrow_span(&self) -> (s: &Span)
        ensures
            *s == self@.span(),
    {
        match self {
            Self::StartDocument { span, .. } => span,
            Self::EndDocument { span, .. } => span,
            Self::StartElement { span, .. } => span,
            Self::EndElement { span, .. } => span,
            Self::Content { span, .. } => span,
            Self::ProcessingInstruction { span, .. } => span,
            Self::Comment { span, .. } => span,
        }
    }

    /// The version of the document, if the event is the start of one.
    pub fn as_start_document(&self) -> (r: Option<usize>)
        ensures
            r == (match self@ {
                EventView::StartDocument { version, .. } => Some(version),
                _ => None,
            }),
    {
        match self {
            Self::StartDocument { version, .. } => Some(*version),
            _ => None,
        }
    }

    /// The tag of the element, if the event is the start of one.
    pub fn as_start_element(self) -> (r: Option<Tag>)
        ensures
            match self@ {
                EventView::StartElement { tag, .. } => r matches Some(t) && t@ == tag,
                _ => r is None,
            },
    {
        match self {
            Self::StartElement { tag, .. } => Some(tag),
            _ => None,
        }
    }

    /// The name of the element, if the event is the end of one.
    pub fn as_end_element(&self) -> (r: Option<&Name>)
        ensures
            match self@ {
                EventView::EndElement { name, .. } => r matches Some(n) && *n == name,
                _ => r is None,
            },
    {
        match self {
            Self::EndElement { name, .. } => Some(name),
            _ => None,
        }
    }

    /// The kind and the text of the content, if the event is content.
    pub fn as_content(&self) -> (r: Option<(ContentType, &str)>)
        ensures
            match self@ {
                EventView::Content { ctype, data, .. } => r matches Some((c, d)) && c == ctype
                    && d@ == data,
                _ => r is None,
            },
    {
        match self {
            Self::Content { ctype, data, .. } => Some((*ctype, data.as_str())),
            _ => None,
        }
    }

    /// Whether the event is the start of a document.
    pub fn is_start_document(&self) -> (r: bool)
        ensures
            r == (self@ is StartDocument),
    {
        match self {
            Self::StartDocument { .. } => true,
            _ => false,
        }
    }

    /// Whether the event is the end of a document.
    pub fn is_end_document(&self) -> (r: bool)
        ensures
            r == (self@ is EndDocument),
    {
        match self {
            Self::EndDocument { .. } => true,
            _ => false,
        }
    }
}

} // verus!
