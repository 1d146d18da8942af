//! The pieces that the parser builds elements from: tags that wait to be
//! handled, and the elements that are open.
use vstd::prelude::*;
use vstd::string::*;
use crate::error::{HmlError, HmlErrorView, HmlResult};
use crate::markup::event::{Event, EventView};
use crate::names::attribute::{Attribute, AttributeView, Attributes};
use crate::names::name::Name;
use crate::names::namespace_stack::{NamespaceStack, NamespaceStackView};
use crate::names::tag::{Tag, TagView};
use crate::reader::span::Span;

verus! {

/// What a tag says beside its name: the number of its hashes, and whether
/// it opens a boxed element.
#[derive(Debug, Clone, Copy, PartialEq, Eq, Structural)]
pub struct TagExtra {
    pub depth: usize,
    pub boxed: bool,
}

impl TagExtra {
    /// The depth `depth`, boxed or not.
    pub fn new(depth: usize, boxed: bool) -> (t: Self)
        ensures
            t == (TagExtra { depth, boxed }),
    {
        Self { depth, boxed }
    }
}

/// An opening tag that has been read and not yet resolved.
#[derive(Debug)]
pub struct OpenTag {
    span: Span,
    prefix: String,
    name: String,
    pub extra: TagExtra,
}

/// What an opening tag holds.
pub ghost struct OpenTagView {
    pub span: Span,
    pub prefix: Seq<char>,
    pub name: Seq<char>,
    pub extra: TagExtra,
}

impl View for OpenTag {
    type V = OpenTagView;

    closed spec fn view(&self) -> OpenTagView {
        OpenTagView { span: self.span, prefix: self.prefix@, name: self.name@, extra: self.extra }
    }
}

impl OpenTag {
    /// The opening tag `prefix:name` read from `span`.
    pub fn new(span: Span, prefix: String, name: String, extra: TagExtra) -> (t: Self)
        ensures
            t@ == (OpenTagView { span, prefix: prefix@, name: name@, extra }),
    {
        Self { span, prefix, name, extra }
    }

    /// The span that the tag was read from.
    pub fn span(&self) -> (s: &Span)
        ensures
            *s == self@.span,
    {
        &self.span
    }

    /// The depth and the boxing of the tag.
    pub fn extra(&self) -> (e: TagExtra)
        ensures
            e == self@.extra,
    {
        self.extra
    }
}

/// A closing tag that has been read, with its name resolved.
#[derive(Debug)]
pub struct CloseTag {
    span: Span,
    name: Name,
    pub extra: TagExtra,
}

/// What a closing tag holds.
pub ghost struct CloseTagView {
    pub span: Span,
    pub name: Name,
    pub extra: TagExtra,
}

impl View for CloseTag {
    type V = CloseTagView;

    closed spec fn view(&self) -> CloseTagView {
        CloseTagView { span: self.span, name: self.name, extra: self.extra }
    }
}

/// The result of making a closing tag, taken by its view.
pub open spec fn close_tag_view(r: HmlResult<CloseTag>) -> Result<CloseTagView, HmlErrorView> {
    match r {
        Ok(t) => Ok(t@),
        Err(e) => Err(e@),
    }
}

impl CloseTag {
    /// What making the closing tag `prefix:name` read from `span` gives:
    /// its name is resolved on the stack as it stands, and an error in the
    /// name is reported over `span`.
    pub open spec fn spec_new(
        span: Span,
        v: NamespaceStackView,
        prefix: Seq<char>,
        name: Seq<char>,
        extra: TagExtra,
    ) -> Result<CloseTagView, HmlErrorView> {
        match Name::spec_new(v, prefix, name) {
            Ok(n) => Ok(CloseTagView { span, name: n, extra }),
            Err(e) => Err(HmlErrorView::MarkupError { span, source: e }),
        }
    }

    /// Makes the closing tag `prefix:name` read from `span`.
    pub fn new(span: Span, ns_stack: &mut NamespaceStack, prefix: &str, name: &str, extra: TagExtra)
        -> (r: HmlResult<Self>)
        ensures
            close_tag_view(r) == CloseTag::spec_new(span, old(ns_stack)@, prefix@, name@, extra),
            final(ns_stack)@ == Name::after(
                old(ns_stack)@,
                Name::spec_new(old(ns_stack)@, prefix@, name@),
                name@,
            ),
    {
        match Name::new(ns_stack, prefix, name) {
            Ok(name) => Ok(Self { span, name, extra }),
            Err(source) => Err(HmlError::MarkupError { span, source }),
        }
    }

    /// The span that the tag was read from.
    pub fn span(&self) -> (s: &Span)
        ensures
            *s == self@.span,
    {
        &self.span
    }
}

/// An element that is open: its opening tag, the attributes read so far,
/// and, once the element has started, its name.
///
/// The element has a frame of its own on the namespace stack, from when it
/// is made until it ends. The namespaces that its attributes declare go to
/// that frame, and its own name is resolved only when it starts, so that
/// they hold for it.
#[derive(Debug)]
pub struct StackElement {
    parent_depth: usize,
    open_tag: OpenTag,
    tag_name: Name,
    attributes: Attributes,
}

/// What an open element holds.
pub ghost struct StackElementView {
    /// The depth of tags that was current when the element was opened
    pub parent_depth: usize,
    /// The opening tag
    pub open_tag: OpenTagView,
    /// The name of the element, once it has started; until then, the name
    /// that stands for nothing
    pub tag_name: Name,
    /// The attributes read since the opening tag and not yet given out
    pub attributes: Seq<AttributeView>,
}

impl View for StackElement {
    type V = StackElementView;

    closed spec fn view(&self) -> StackElementView {
        StackElementView {
            parent_depth: self.parent_depth,
            open_tag: self.open_tag@,
            tag_name: self.tag_name,
            attributes: self.attributes@,
        }
    }
}

impl StackElementView {
    /// The element as it is opened by `open_tag` at the depth
    /// `parent_depth`.
    pub open spec fn opened(parent_depth: usize, open_tag: OpenTagView) -> StackElementView {
        StackElementView {
            parent_depth,
            open_tag,
            tag_name: Name::spec_none(),
            attributes: Seq::empty(),
        }
    }

    /// The name that the element starts with on the stack `v`, or the
    /// error in it, reported over the span of the opening tag.
    pub open spec fn start_name(self, v: NamespaceStackView) -> Result<Name, HmlErrorView> {
        match Name::spec_new(v, self.open_tag.prefix, self.open_tag.name) {
            Ok(n) => Ok(n),
            Err(e) => Err(HmlErrorView::MarkupError { span: self.open_tag.span, source: e }),
        }
    }

    /// The stack `v` after the element has started on it.
    pub open spec fn start_stack(self, v: NamespaceStackView) -> NamespaceStackView {
        Name::after(
            v,
            Name::spec_new(v, self.open_tag.prefix, self.open_tag.name),
            self.open_tag.name,
        )
    }

    /// The element once it has started with the name `name`: its
    /// attributes have been given out with the event.
    pub open spec fn started(self, name: Name) -> StackElementView {
        StackElementView { tag_name: name, attributes: Seq::empty(), ..self }
    }

    /// The event of the start of the element with the name `name`.
    pub open spec fn start_event(self, name: Name) -> EventView {
        EventView::StartElement {
            span: self.open_tag.span,
            tag: TagView { name, attributes: self.attributes },
        }
    }
}

/// The result of an operation that gives an event, taken by its view.
pub open spec fn event_view(r: HmlResult<Event>) -> Result<EventView, HmlErrorView> {
    match r {
        Ok(e) => Ok(e@),
        Err(e) => Err(e@),
    }
}

impl StackElement {
    /// Opens an element for `open_tag` at the depth `parent_depth`, and
    /// pushes a frame for it on the namespace stack.
    pub fn new(ns_stack: &mut NamespaceStack, parent_depth: usize, open_tag: OpenTag) -> (e: Self)
        ensures
            e@ == StackElementView::opened(parent_depth, open_tag@),
            final(ns_stack)@ == old(ns_stack)@.push_frame(),
    {
        ns_stack.push_frame();
        let attributes = Attributes::default();
        let tag_name = Name::none();
        StackElement { parent_depth, open_tag, tag_name, attributes }
    }

    /// Adds the attribute `prefix:name` with the value `value`, read from
    /// `span`, to the element. A namespace that it declares is declared in
    /// the topmost frame. An error in its name is reported over `span`.
    pub fn add_attribute(
        &mut self,
        span: Span,
        ns_stack: &mut NamespaceStack,
        prefix: &str,
        name: &str,
        value: String,
    ) -> (r: HmlResult<()>)
        requires
            old(ns_stack)@.frames.len() > 0,
        ensures
            final(ns_stack)@ == Attribute::after(old(ns_stack)@, prefix@, name@, value@),
            match Attribute::spec_new(old(ns_stack)@, prefix@, name@, value@) {
                Ok(a) => r is Ok && final(self)@ == (StackElementView {
                    attributes: old(self)@.attributes.push(a),
                    ..old(self)@
                }),
                Err(e) => r matches Err(x) && x@ == (HmlErrorView::MarkupError { span, source: e })
                    && final(self)@ == old(self)@,
            },
    {
        HmlError::map_markup_error(self.attributes.add(ns_stack, prefix, name, value), &span)
    }

    /// Starts the element: resolves its name on the stack as it stands,
    /// and gives the event of its start, with the attributes read so far.
    /// Where the name is rejected nothing changes.
    pub fn as_start_element(&mut self, ns_stack: &mut NamespaceStack) -> (r: HmlResult<Event>)
        ensures
            final(ns_stack)@ == old(self)@.start_stack(old(ns_stack)@),
            match old(self)@.start_name(old(ns_stack)@) {
                Ok(n) => event_view(r) == Ok::<EventView, HmlErrorView>(old(self)@.start_event(n))
                    && final(self)@ == old(self)@.started(n),
                Err(e) => event_view(r) == Err::<EventView, HmlErrorView>(e) && final(self)@
                    == old(self)@,
            },
    {
        match Name::new(ns_stack, self.open_tag.prefix.as_str(), self.open_tag.name.as_str()) {
            Ok(name) => {
                let mut attributes = Attributes::new();
                attributes.steal(&mut self.attributes);
                assert(attributes@ =~= old(self)@.attributes);
                self.tag_name = name;
                let tag = Tag { name, attributes };
                Ok(Event::start_element(self.open_tag.span, tag))
            },
            Err(source) => Err(HmlError::MarkupError { span: self.open_tag.span, source }),
        }
    }

    /// Ends the element: pops its frame from the namespace stack, and
    /// gives the event of its end over `span`, with the depth of tags that
    /// was current when the element was opened.
    pub fn as_end_element(&self, ns_stack: &mut NamespaceStack, span: &Span) -> (r: (Event, usize))
        requires
            old(ns_stack)@.frames.len() > 0,
        ensures
            final(ns_stack)@ == old(ns_stack)@.pop_frame(),
            r.0@ == (EventView::EndElement { span: *span, name: self@.tag_name }),
            r.1 == self@.parent_depth,
    {
        ns_stack.pop_frame();
        (Event::end_element(*span, self.tag_name), self.parent_depth)
    }
}

} // verus!
