//! The parser of HML: from the tokens of a text to the events of a
//! document.
use vstd::prelude::*;
use vstd::string::*;
use crate::error::{HmlError, HmlErrorView, HmlResult};
use crate::hml_reader::builder::{
    CloseTag, CloseTagView, OpenTag, OpenTagView, StackElement, StackElementView, TagExtra,
    event_view,
};
use crate::hml_reader::lexer::TokenSource;
use crate::hml_reader::token::{Token, TokenView};
use crate::markup::event::{ContentType, Event, EventView};
use crate::names::attribute::Attribute;
use crate::names::name::Name;
use crate::names::namespace_stack::{NamespaceStack, NamespaceStackView};
use crate::reader::position::Position;
use crate::reader::span::Span;
use crate::text::{byte_len, lemma_byte_len_is_encoded_len, texts};

verus! {

/// What a parser holds.
pub ghost struct ParserView {
    /// The version of the document, 100 for 1.00
    pub version: usize,
    /// Whether the end of the tokens has been seen
    pub pending_eof: bool,
    /// Whether the start of the document has been given
    pub start_emitted: bool,
    /// Whether every element has ended
    pub end_emitted: bool,
    /// Whether the end of the document has been given
    pub finished: bool,
    /// The depth of tags that is current
    pub tag_depth: usize,
    /// The elements that are open, the outermost first
    pub tag_stack: Seq<StackElementView>,
    /// An opening tag that waits for elements to end before it
    pub pending_open_tag: Option<OpenTagView>,
    /// A closing tag that waits for elements to end before it
    pub pending_close_tag: Option<CloseTagView>,
    /// A token that waits for the start of an element to be given
    pub pending_token: Option<TokenView>,
    /// Whether the innermost open element still takes attributes
    pub start_element_building: bool,
    /// The end of the token that was handled last
    pub token_pos: Position,
}

/// What one step of the parser gives: an event, nothing yet, or an error.
pub ghost enum Outcome {
    Event(EventView),
    Continue,
    Failed(HmlErrorView),
}

/// The parser and the namespace stack after one step, and what the step
/// gave.
pub ghost struct Step {
    pub parser: ParserView,
    pub ns: NamespaceStackView,
    pub outcome: Outcome,
}

/// The lines of a comment as one text, a newline between each two.
pub open spec fn joined(lines: Seq<Seq<char>>) -> Seq<char>
    decreases lines.len(),
{
    if lines.len() == 0 {
        Seq::empty()
    } else if lines.len() == 1 {
        lines[0]
    } else {
        joined(lines.drop_last()) + seq!['\n'] + lines.last()
    }
}

/// The length in bytes of each line.
pub open spec fn line_lengths(lines: Seq<Seq<char>>) -> Seq<usize> {
    lines.map_values(|l: Seq<char>| byte_len(l) as usize)
}

/// The empty span at `p`.
pub open spec fn span_of(p: Position) -> Span {
    Span { start: p, end: p }
}

impl ParserView {
    /// The parser before anything was asked of it.
    pub open spec fn initial(version: usize) -> ParserView {
        ParserView {
            version,
            pending_eof: false,
            start_emitted: false,
            end_emitted: false,
            finished: false,
            tag_depth: 0,
            tag_stack: Seq::empty(),
            pending_open_tag: None,
            pending_close_tag: None,
            pending_token: None,
            start_element_building: false,
            token_pos: Position::spec_zero(),
        }
    }

    /// What holds of a parser at all times.
    ///
    /// An element that takes attributes is open. Where the depth is not 0
    /// an element is open, and an element that was opened at a depth other
    /// than 0 has a parent. While a tag or the end of the tokens waits, no
    /// element takes attributes. Once every element has ended none is open.
    /// The document ends after every element has, and they after its start.
    pub open spec fn wf(self) -> bool {
        &&& self.start_element_building ==> self.tag_stack.len() > 0
        &&& self.tag_depth > 0 ==> self.tag_stack.len() > 0
        &&& forall|i: int|
            0 <= i < self.tag_stack.len() && (#[trigger] self.tag_stack[i]).parent_depth > 0 ==> i
                > 0
        &&& (self.pending_eof || self.pending_open_tag is Some || self.pending_close_tag is Some)
            ==> !self.start_element_building
        &&& self.end_emitted ==> self.tag_stack.len() == 0
        &&& self.end_emitted ==> self.start_emitted
        &&& self.finished ==> self.end_emitted
    }

    /// Whether the namespace stack `ns` has a frame for each open element.
    pub open spec fn fits(self, ns: NamespaceStackView) -> bool {
        ns.frames.len() >= self.tag_stack.len()
    }

    /// The innermost open element ends: its frame is popped, the depth is
    /// again what it was when the element was opened, and the event is the
    /// end of the element over `span`. Where no element is open, the tag
    /// that asks for this is out of place.
    pub open spec fn pop(self, ns: NamespaceStackView, span: Span) -> Step {
        if self.tag_stack.len() == 0 {
            Step {
                parser: self,
                ns,
                outcome: Outcome::Failed(
                    HmlErrorView::UnexpectedTagIndent {
                        span,
                        depth: (self.tag_depth + 1) as usize,
                    },
                ),
            }
        } else {
            let top = self.tag_stack.last();
            Step {
                parser: ParserView {
                    tag_stack: self.tag_stack.drop_last(),
                    tag_depth: top.parent_depth,
                    ..self
                },
                ns: ns.pop_frame(),
                outcome: Outcome::Event(EventView::EndElement { span, name: top.tag_name }),
            }
        }
    }

    /// The end of the tokens is handled: the innermost open element ends,
    /// at the position of the last token; once none is open, every element
    /// has ended.
    pub open spec fn handle_pending_eof(self, ns: NamespaceStackView) -> Step {
        if self.tag_stack.len() == 0 {
            Step { parser: ParserView { end_emitted: true, ..self }, ns, outcome: Outcome::Continue }
        } else {
            self.pop(ns, span_of(self.token_pos))
        }
    }

    /// The closing tag `c` is handled: while the depth is not 0, the
    /// innermost open element ends before the tag, which goes on waiting;
    /// at depth 0 the innermost open element, which is the boxed one, ends
    /// with the tag. The name of the tag is not held against that of the
    /// element.
    pub open spec fn handle_close_tag(self, ns: NamespaceStackView, c: CloseTagView) -> Step {
        if self.tag_depth > 0 {
            (ParserView { pending_close_tag: Some(c), ..self }).pop(ns, span_of(c.span.start))
        } else {
            self.pop(ns, c.span)
        }
    }

    /// The opening tag `o` is handled.
    ///
    /// A tag of the current depth or less ends the innermost open element
    /// before it, and goes on waiting. A tag one deeper than the current
    /// depth opens an element, which gets a frame on the namespace stack and
    /// takes attributes from now on; the depth becomes that of the tag, or 0
    /// where the element is boxed. A tag deeper than that is in error.
    pub open spec fn handle_open_tag(self, ns: NamespaceStackView, o: OpenTagView) -> Step {
        if o.extra.depth <= self.tag_depth {
            (ParserView { pending_open_tag: Some(o), ..self }).pop(ns, span_of(o.span.start))
        } else if o.extra.depth == self.tag_depth + 1 {
            Step {
                parser: ParserView {
                    tag_stack: self.tag_stack.push(StackElementView::opened(self.tag_depth, o)),
                    start_element_building: true,
                    tag_depth: if o.extra.boxed {
                        0
                    } else {
                        o.extra.depth
                    },
                    ..self
                },
                ns: ns.push_frame(),
                outcome: Outcome::Continue,
            }
        } else {
            Step {
                parser: self,
                ns,
                outcome: Outcome::Failed(
                    HmlErrorView::UnexpectedTagIndent {
                        span: o.span,
                        depth: (self.tag_depth + 1) as usize,
                    },
                ),
            }
        }
    }

    /// The innermost open element starts, and the token `t`, which is not
    /// an attribute, waits: the element takes no more attributes, its name
    /// is resolved in its own frame, and the event is its start with the
    /// attributes read.
    pub open spec fn start_element(self, ns: NamespaceStackView, t: TokenView) -> Step {
        let top = self.tag_stack.last();
        let waiting = ParserView {
            start_element_building: false,
            pending_token: Some(t),
            ..self
        };
        match top.start_name(ns) {
            Ok(name) => Step {
                parser: ParserView {
                    tag_stack: self.tag_stack.drop_last().push(top.started(name)),
                    ..waiting
                },
                ns: top.start_stack(ns),
                outcome: Outcome::Event(top.start_event(name)),
            },
            Err(e) => Step { parser: waiting, ns: top.start_stack(ns), outcome: Outcome::Failed(e) },
        }
    }

    /// The token `t` is handled where no element waits to start.
    ///
    /// A comment gives an event with its lines joined and their lengths;
    /// a quoted string gives content, raw or to be interpreted. A tag is
    /// kept to be handled next; the name of a closing tag is resolved at
    /// once. An attribute goes to the innermost open element while that
    /// takes attributes, and is in error else. The end of the text is
    /// noted.
    pub open spec fn handle_plain_token(self, ns: NamespaceStackView, t: TokenView) -> Step {
        let p = ParserView { token_pos: t.span().end, ..self };
        match t {
            TokenView::Comment { span, lines } => Step {
                parser: p,
                ns,
                outcome: Outcome::Event(
                    EventView::Comment { span, data: joined(lines), lengths: line_lengths(lines) },
                ),
            },
            TokenView::TagOpen { span, prefix, name, depth, boxed } => Step {
                parser: ParserView {
                    pending_open_tag: Some(
                        OpenTagView { span, prefix, name, extra: TagExtra { depth, boxed } },
                    ),
                    ..p
                },
                ns,
                outcome: Outcome::Continue,
            },
            TokenView::TagClose { span, prefix, name, depth } => {
                let made = Name::spec_new(ns, prefix, name);
                match CloseTag::spec_new(span, ns, prefix, name, TagExtra { depth, boxed: false }) {
                    Ok(c) => Step {
                        parser: ParserView { pending_close_tag: Some(c), ..p },
                        ns: Name::after(ns, made, name),
                        outcome: Outcome::Continue,
                    },
                    Err(e) => Step {
                        parser: p,
                        ns: Name::after(ns, made, name),
                        outcome: Outcome::Failed(e),
                    },
                }
            },
            TokenView::Attribute { span, prefix, name, value } => {
                if self.start_element_building && self.tag_stack.len() > 0 {
                    let top = self.tag_stack.last();
                    match Attribute::spec_new(ns, prefix, name, value) {
                        Ok(a) => Step {
                            parser: ParserView {
                                tag_stack: self.tag_stack.drop_last().push(
                                    StackElementView { attributes: top.attributes.push(a), ..top },
                                ),
                                ..p
                            },
                            ns: Attribute::after(ns, prefix, name, value),
                            outcome: Outcome::Continue,
                        },
                        Err(e) => Step {
                            parser: p,
                            ns: Attribute::after(ns, prefix, name, value),
                            outcome: Outcome::Failed(
                                HmlErrorView::MarkupError { span, source: e },
                            ),
                        },
                    }
                } else {
                    Step {
                        parser: p,
                        ns,
                        outcome: Outcome::Failed(
                            HmlErrorView::UnexpectedAttribute {
                                span,
                                attr: prefix + seq![':'] + name,
                            },
                        ),
                    }
                }
            },
            TokenView::Characters { span, data } => Step {
                parser: p,
                ns,
                outcome: Outcome::Event(
                    EventView::Content { span, ctype: ContentType::Interpretable, data },
                ),
            },
            TokenView::RawCharacters { span, data } => Step {
                parser: p,
                ns,
                outcome: Outcome::Event(EventView::Content { span, ctype: ContentType::Raw, data }),
            },
            TokenView::Whitespace { .. } => Step { parser: p, ns, outcome: Outcome::Continue },
            TokenView::EndOfFile { .. } => Step {
                parser: ParserView { pending_eof: true, ..p },
                ns,
                outcome: Outcome::Continue,
            },
        }
    }

    /// The token `t` is handled: white space is dropped; any token but an
    /// attribute lets the element that takes attributes start, and waits
    /// for that; any other token is handled by its kind.
    pub open spec fn handle_token(self, ns: NamespaceStackView, t: TokenView) -> Step {
        if t is Whitespace {
            Step { parser: self, ns, outcome: Outcome::Continue }
        } else if self.start_element_building && self.tag_stack.len() > 0 && !(t is Attribute) {
            self.start_element(ns, t)
        } else {
            self.handle_plain_token(ns, t)
        }
    }

    /// How far the parser is from having to read a token, counted in steps
    /// that give nothing: each such step lowers it.
    pub open spec fn rank(self) -> nat {
        if self.end_emitted {
            0
        } else if self.pending_eof {
            1
        } else {
            (2 + (if self.pending_token is Some {
                4nat
            } else {
                0nat
            }) + (if self.pending_open_tag is Some {
                2nat
            } else {
                0nat
            }) + (if self.pending_close_tag is Some {
                1nat
            } else {
                0nat
            })) as nat
        }
    }
}

/// What asking a parser for an event gives: the parser, the namespace
/// stack and the tokens left afterwards, and the event or the error.
pub ghost struct Run {
    pub parser: ParserView,
    pub ns: NamespaceStackView,
    pub toks: Seq<Result<TokenView, HmlErrorView>>,
    pub result: Result<EventView, HmlErrorView>,
}

/// The next step of a parser that has given the start of the document and
/// not yet seen every element end, and the tokens left after it.
///
/// What waits is handled first: the end of the tokens, then a closing tag,
/// then an opening tag, then a token. Where nothing waits a token is taken
/// from the source; an error of the source is the error of the step. Once
/// the source has no more, the end of the text is made up at the position
/// of the last token.
pub open spec fn next_step(
    p: ParserView,
    ns: NamespaceStackView,
    toks: Seq<Result<TokenView, HmlErrorView>>,
) -> (Step, Seq<Result<TokenView, HmlErrorView>>) {
    if p.pending_eof {
        (p.handle_pending_eof(ns), toks)
    } else if p.pending_close_tag is Some {
        (
            (ParserView { pending_close_tag: None, ..p }).handle_close_tag(
                ns,
                p.pending_close_tag->0,
            ),
            toks,
        )
    } else if p.pending_open_tag is Some {
        (
            (ParserView { pending_open_tag: None, ..p }).handle_open_tag(ns, p.pending_open_tag->0),
            toks,
        )
    } else if p.pending_token is Some {
        ((ParserView { pending_token: None, ..p }).handle_token(ns, p.pending_token->0), toks)
    } else if toks.len() > 0 {
        match toks[0] {
            Ok(t) => (p.handle_token(ns, t), toks.drop_first()),
            Err(e) => (Step { parser: p, ns, outcome: Outcome::Failed(e) }, toks.drop_first()),
        }
    } else {
        (p.handle_token(ns, TokenView::EndOfFile { span: span_of(p.token_pos) }), toks)
    }
}

/// What asking the parser `p` for an event gives, `ns` being the namespace
/// stack and `toks` what the source of tokens has yet to give.
///
/// The first event is the start of the document. After the end of the
/// document asking again is in error. Once every element has ended the
/// event is the end of the document. Else the parser takes step after step
/// until one gives an event or an error.
pub open spec fn run(
    p: ParserView,
    ns: NamespaceStackView,
    toks: Seq<Result<TokenView, HmlErrorView>>,
) -> Run
    decreases toks.len(), p.rank(),
    via run_decreases
{
    if !p.start_emitted {
        Run {
            parser: ParserView { start_emitted: true, ..p },
            ns,
            toks,
            result: Ok(
                EventView::StartDocument { span: span_of(p.token_pos), version: p.version },
            ),
        }
    } else if p.finished {
        Run { parser: p, ns, toks, result: Err(HmlErrorView::BeyondEndOfTokens) }
    } else if p.end_emitted {
        Run {
            parser: ParserView { finished: true, ..p },
            ns,
            toks,
            result: Ok(EventView::EndDocument { span: span_of(p.token_pos) }),
        }
    } else {
        let (step, rest) = next_step(p, ns, toks);
        match step.outcome {
            Outcome::Event(e) => Run { parser: step.parser, ns: step.ns, toks: rest, result: Ok(e) },
            Outcome::Failed(e) => Run {
                parser: step.parser,
                ns: step.ns,
                toks: rest,
                result: Err(e),
            },
            Outcome::Continue => run(step.parser, step.ns, rest),
        }
    }
}

#[via_fn]
proof fn run_decreases(
    p: ParserView,
    ns: NamespaceStackView,
    toks: Seq<Result<TokenView, HmlErrorView>>,
) {
    if p.start_emitted && !p.finished && !p.end_emitted {
        lemma_step_decreases(p, ns, toks);
    }
}

/// A step that gives nothing takes a token from the source or lowers the
/// rank of the parser.
pub proof fn lemma_step_decreases(
    p: ParserView,
    ns: NamespaceStackView,
    toks: Seq<Result<TokenView, HmlErrorView>>,
)
    requires
        !p.end_emitted,
    ensures
        next_step(p, ns, toks).0.outcome is Continue ==> {
            ||| next_step(p, ns, toks).1.len() < toks.len()
            ||| next_step(p, ns, toks).1.len() == toks.len() && next_step(
                p,
                ns,
                toks,
            ).0.parser.rank() < p.rank()
        },
{
}

/// The views of the open elements.
pub open spec fn stack_views(stack: Seq<StackElement>) -> Seq<StackElementView> {
    stack.map_values(|e: StackElement| e@)
}

/// Whether the parser `p` and the namespace stack `ns`, and the result `r`
/// of a step, are what `step` says.
pub open spec fn step_is(
    p: ParserView,
    ns: NamespaceStackView,
    r: HmlResult<Option<Event>>,
    step: Step,
) -> bool {
    &&& p == step.parser
    &&& ns == step.ns
    &&& match step.outcome {
        Outcome::Event(e) => r matches Ok(Some(x)) && x@ == e,
        Outcome::Continue => r matches Ok(None),
        Outcome::Failed(e) => r matches Err(x) && x@ == e,
    }
}

/// A parser of HML: it takes tokens from a source and gives the events of
/// the document, one at each call.
pub struct Parser {
    version: usize,
    pending_eof: bool,
    start_emitted: bool,
    end_emitted: bool,
    finished: bool,
    tag_depth: usize,
    tag_stack: Vec<StackElement>,
    pending_open_tag: Option<OpenTag>,
    pending_close_tag: Option<CloseTag>,
    pending_token: Option<Token>,
    start_element_building: bool,
    token_pos: Position,
}

impl View for Parser {
    type V = ParserView;

    closed spec fn view(&self) -> ParserView {
        ParserView {
            version: self.version,
            pending_eof: self.pending_eof,
            start_emitted: self.start_emitted,
            end_emitted: self.end_emitted,
            finished: self.finished,
            tag_depth: self.tag_depth,
            tag_stack: stack_views(self.tag_stack@),
            pending_open_tag: match self.pending_open_tag {
                Some(o) => Some(o@),
                None => None,
            },
            pending_close_tag: match self.pending_close_tag {
                Some(c) => Some(c@),
                None => None,
            },
            pending_token: match self.pending_token {
                Some(t) => Some(t@),
                None => None,
            },
            start_element_building: self.start_element_building,
            token_pos: self.token_pos,
        }
    }
}

impl Default for Parser {
    /// A parser for a document of version 1.00.
    fn default() -> (p: Self)
        ensures
            p@ == ParserView::initial(100),
    {
        Parser::new()
    }
}

impl Parser {
    /// A parser for a document of version 1.00.
    pub fn new() -> (p: Self)
        ensures
            p@ == ParserView::initial(100),
            p@.wf(),
    {
        let p = Parser {
            version: 100,
            start_emitted: false,
            end_emitted: false,
            finished: false,
            tag_depth: 0,
            tag_stack: Vec::new(),
            pending_eof: false,
            pending_open_tag: None,
            pending_close_tag: None,
            pending_token: None,
            start_element_building: false,
            token_pos: Position::zero(),
        };
        assert(stack_views(p.tag_stack@) =~= Seq::empty());
        p
    }

    /// The parser with the version of the document set to `version`: 100
    /// for 1.00, 110 for 1.10.
    pub fn set_version(self, version: usize) -> (p: Self)
        ensures
            p@ == (ParserView { version, ..self@ }),
    {
        let mut p = self;
        p.version = version;
        p
    }

    /// The number of elements that are open. The namespace stack that is
    /// handed to the parser has a frame for each of them.
    pub fn open_elements(&self) -> (n: usize)
        ensures
            n == self@.tag_stack.len(),
    {
        self.tag_stack.len()
    }

    /// Ends the innermost open element, over `span`.
    fn pop_tag_stack(&mut self, ns_stack: &mut NamespaceStack, span: &Span) -> (r: HmlResult<
        Option<Event>,
    >)
        requires
            old(self)@.wf(),
            old(self)@.fits(old(ns_stack)@),
            !old(self)@.start_element_building,
        ensures
            step_is(final(self)@, final(ns_stack)@, r, old(self)@.pop(old(ns_stack)@, *span)),
            final(self)@.wf(),
            final(self)@.fits(final(ns_stack)@),
    {
        let ghost before = stack_views(self.tag_stack@);
        match self.tag_stack.pop() {
            None => Err(HmlError::UnexpectedTagIndent { span: *span, depth: self.tag_depth + 1 }),
            Some(e) => {
                assert(before.last() == e@);
                assert(stack_views(self.tag_stack@) =~= before.drop_last());
                let (ev, depth) = e.as_end_element(ns_stack, span);
                self.tag_depth = depth;
                Ok(Some(ev))
            },
        }
    }

    /// Handles the end of the tokens.
    fn handle_pending_eof(&mut self, ns_stack: &mut NamespaceStack) -> (r: HmlResult<Option<Event>>)
        requires
            old(self)@.wf(),
            old(self)@.fits(old(ns_stack)@),
            old(self)@.start_emitted,
            !old(self)@.start_element_building,
        ensures
            step_is(
                final(self)@,
                final(ns_stack)@,
                r,
                old(self)@.handle_pending_eof(old(ns_stack)@),
            ),
            final(self)@.wf(),
            final(self)@.fits(final(ns_stack)@),
    {
        if self.tag_stack.len() == 0 {
            self.end_emitted = true;
            Ok(None)
        } else {
            let span = Span::new_at(&self.token_pos);
            self.pop_tag_stack(ns_stack, &span)
        }
    }

    /// Handles a closing tag.
    fn handle_close_tag(&mut self, ns_stack: &mut NamespaceStack, close_tag: CloseTag) -> (r:
        HmlResult<Option<Event>>)
        requires
            old(self)@.wf(),
            old(self)@.fits(old(ns_stack)@),
            !old(self)@.start_element_building,
            old(self)@.pending_close_tag is None,
        ensures
            step_is(
                final(self)@,
                final(ns_stack)@,
                r,
                old(self)@.handle_close_tag(old(ns_stack)@, close_tag@),
            ),
            final(self)@.wf(),
            final(self)@.fits(final(ns_stack)@),
    {
        if self.tag_depth > 0 {
            let span = Span::new_at(close_tag.span().start());
            self.pending_close_tag = Some(close_tag);
            self.pop_tag_stack(ns_stack, &span)
        } else {
            let span = *close_tag.span();
            self.pop_tag_stack(ns_stack, &span)
        }
    }

    /// Handles an opening tag.
    fn handle_open_tag(&mut self, ns_stack: &mut NamespaceStack, open_tag: OpenTag) -> (r: HmlResult<
        Option<Event>,
    >)
        requires
            old(self)@.wf(),
            old(self)@.fits(old(ns_stack)@),
            !old(self)@.start_element_building,
            !old(self)@.pending_eof,
            !old(self)@.end_emitted,
            old(self)@.pending_close_tag is None,
            old(self)@.pending_open_tag is None,
        ensures
            step_is(
                final(self)@,
                final(ns_stack)@,
                r,
                old(self)@.handle_open_tag(old(ns_stack)@, open_tag@),
            ),
            final(self)@.wf(),
            final(self)@.fits(final(ns_stack)@),
    {
        let extra = open_tag.extra();
        if extra.depth <= self.tag_depth {
            let span = Span::new_at(open_tag.span().start());
            self.pending_open_tag = Some(open_tag);
            self.pop_tag_stack(ns_stack, &span)
        } else if extra.depth - 1 == self.tag_depth {
            let ghost before = stack_views(self.tag_stack@);
            let element = StackElement::new(ns_stack, self.tag_depth, open_tag);
            self.tag_stack.push(element);
            assert(stack_views(self.tag_stack@) =~= before.push(
                StackElementView::opened(self.tag_depth, open_tag@),
            ));
            self.start_element_building = true;
            self.tag_depth = if extra.boxed {
                0
            } else {
                extra.depth
            };
            Ok(None)
        } else {
            Err(HmlError::UnexpectedTagIndent { span: *open_tag.span(), depth: self.tag_depth + 1 })
        }
    }
    /// Starts the innermost open element, and keeps `token` to be handled
    /// after that.
    fn start_pending_element(&mut self, ns_stack: &mut NamespaceStack, token: Token) -> (r:
        HmlResult<Option<Event>>)
        requires
            old(self)@.wf(),
            old(self)@.fits(old(ns_stack)@),
            old(self)@.start_element_building,
        ensures
            step_is(
                final(self)@,
                final(ns_stack)@,
                r,
                old(self)@.start_element(old(ns_stack)@, token@),
            ),
            final(self)@.wf(),
            final(self)@.fits(final(ns_stack)@),
    {
        let ghost before = stack_views(self.tag_stack@);
        self.start_element_building = false;
        self.pending_token = Some(token);
        let mut top = self.tag_stack.pop().unwrap();
        assert(before.last() == top@);
        let r = top.as_start_element(ns_stack);
        self.tag_stack.push(top);
        proof {
            assert(stack_views(self.tag_stack@) =~= before.drop_last().push(top@));
            if r is Err {
                assert(before.drop_last().push(before.last()) =~= before);
            }
        }
        match r {
            Ok(e) => Ok(Some(e)),
            Err(e) => Err(e),
        }
    }

    /// Handles a token where no element waits to start.
    fn handle_plain_token(&mut self, ns_stack: &mut NamespaceStack, token: Token) -> (r: HmlResult<
        Option<Event>,
    >)
        requires
            old(self)@.wf(),
            old(self)@.fits(old(ns_stack)@),
            old(self)@.start_element_building ==> token@ is Attribute,
            !old(self)@.pending_eof,
            !old(self)@.end_emitted,
            old(self)@.pending_close_tag is None,
            old(self)@.pending_open_tag is None,
        ensures
            step_is(
                final(self)@,
                final(ns_stack)@,
                r,
                old(self)@.handle_plain_token(old(ns_stack)@, token@),
            ),
            final(self)@.wf(),
            final(self)@.fits(final(ns_stack)@),
    {
        self.token_pos = *token.get_span().end();
        match token {
            Token::Comment { span, lines } => Ok(Some(comment_event(span, lines))),
            Token::TagOpen { span, prefix, name, depth, boxed } => {
                self.pending_open_tag = Some(
                    OpenTag::new(span, prefix, name, TagExtra::new(depth, boxed)),
                );
                Ok(None)
            },
            Token::TagClose { span, prefix, name, depth } => {
                let close_tag = CloseTag::new(
                    span,
                    ns_stack,
                    prefix.as_str(),
                    name.as_str(),
                    TagExtra::new(depth, false),
                );
                match close_tag {
                    Ok(c) => {
                        self.pending_close_tag = Some(c);
                        Ok(None)
                    },
                    Err(e) => Err(e),
                }
            },
            Token::Attribute { span, prefix, name, value } => {
                if self.start_element_building {
                    let ghost before = stack_views(self.tag_stack@);
                    let mut top = self.tag_stack.pop().unwrap();
                    assert(before.last() == top@);
                    let r = top.add_attribute(span, ns_stack, prefix.as_str(), name.as_str(), value);
                    self.tag_stack.push(top);
                    proof {
                        assert(stack_views(self.tag_stack@) =~= before.drop_last().push(top@));
                        if r is Err {
                            assert(before.drop_last().push(before.last()) =~= before);
                        }
                    }
                    match r {
                        Ok(()) => Ok(None),
                        Err(e) => Err(e),
                    }
                } else {
                    HmlError::unexpected_attribute(span, prefix.as_str(), name.as_str())
                }
            },
            Token::Characters { span, data } => Ok(
                Some(Event::content(span, ContentType::Interpretable, data)),
            ),
            Token::RawCharacters { span, data } => Ok(
                Some(Event::content(span, ContentType::Raw, data)),
            ),
            Token::Whitespace { .. } => Ok(None),
            Token::EndOfFile { .. } => {
                self.pending_eof = true;
                Ok(None)
            },
        }
    }

    /// Handles a token.
    fn handle_token(&mut self, ns_stack: &mut NamespaceStack, token: Token) -> (r: HmlResult<
        Option<Event>,
    >)
        requires
            old(self)@.wf(),
            old(self)@.fits(old(ns_stack)@),
            !old(self)@.pending_eof,
            !old(self)@.end_emitted,
            old(self)@.pending_close_tag is None,
            old(self)@.pending_open_tag is None,
        ensures
            step_is(
                final(self)@,
                final(ns_stack)@,
                r,
                old(self)@.handle_token(old(ns_stack)@, token@),
            ),
            final(self)@.wf(),
            final(self)@.fits(final(ns_stack)@),
    {
        if token.is_whitespace() {
            return Ok(None);
        }
        if self.start_element_building && !token.is_attribute() {
            self.start_pending_element(ns_stack, token)
        } else {
            self.handle_plain_token(ns_stack, token)
        }
    }

    /// Gives the next event of the document, taking from `source` the
    /// tokens that it needs for that.
    ///
    /// The first event is the start of the document, the last its end;
    /// asking again after that is in error. In between come the start and
    /// the end of each element, its content and the comments, in the order
    /// of the text. After an error the parser is to be given up.
    ///
    /// The same namespace stack is to be handed in at each call: each open
    /// element has a frame on it.
    pub fn next_event<T: TokenSource>(
        &mut self,
        ns_stack: &mut NamespaceStack,
        source: &mut T,
    ) -> (r: HmlResult<Event>)
        requires
            old(self)@.wf(),
            old(self)@.fits(old(ns_stack)@),
        ensures
            final(self)@.wf(),
            final(self)@.fits(final(ns_stack)@),
            ({
                let run = run(old(self)@, old(ns_stack)@, old(source).upcoming());
                &&& final(self)@ == run.parser
                &&& final(ns_stack)@ == run.ns
                &&& final(source).upcoming() == run.toks
                &&& event_view(r) == run.result
            }),
    {
        let ghost goal = run(self@, ns_stack@, source.upcoming());
        loop
            invariant
                self@.wf(),
                self@.fits(ns_stack@),
                goal == run(self@, ns_stack@, source.upcoming()),
                goal == run(old(self)@, old(ns_stack)@, old(source).upcoming()),
            decreases source.upcoming().len(), self@.rank(),
        {
            if !self.start_emitted {
                self.start_emitted = true;
                let span = Span::new_at(&self.token_pos);
                return Ok(Event::start_document(span, self.version));
            } else if self.finished {
                return HmlError::no_more_events();
            } else if self.end_emitted {
                self.finished = true;
                let span = Span::new_at(&self.token_pos);
                return Ok(Event::end_document(span));
            }
            let ghost before = self@;
            let ghost before_ns = ns_stack@;
            let ghost before_toks = source.upcoming();
            proof {
                lemma_step_decreases(before, before_ns, before_toks);
            }
            let step = if self.pending_eof {
                self.handle_pending_eof(ns_stack)
            } else if self.pending_close_tag.is_some() {
                let close_tag = self.pending_close_tag.take().unwrap();
                self.handle_close_tag(ns_stack, close_tag)
            } else if self.pending_open_tag.is_some() {
                let open_tag = self.pending_open_tag.take().unwrap();
                self.handle_open_tag(ns_stack, open_tag)
            } else if self.pending_token.is_some() {
                let token = self.pending_token.take().unwrap();
                self.handle_token(ns_stack, token)
            } else {
                match source.fetch_token() {
                    Some(Ok(token)) => self.handle_token(ns_stack, token),
                    Some(Err(e)) => Err(e),
                    None => {
                        let token = Token::eof(Span::new_at(&self.token_pos));
                        self.handle_token(ns_stack, token)
                    },
                }
            };
            assert(step_is(self@, ns_stack@, step, next_step(before, before_ns, before_toks).0));
            assert(source.upcoming() == next_step(before, before_ns, before_toks).1);
            match step {
                Err(e) => {
                    return Err(e);
                },
                Ok(Some(event)) => {
                    return Ok(event);
                },
                Ok(None) => {},
            }
        }
    }
}

/// The event of a comment of the lines `lines`: its text is the lines with
/// a newline between each two, and the lengths are those of the lines in
/// bytes.
pub fn comment_event(span: Span, lines: Vec<String>) -> (e: Event)
    ensures
        e@ == (EventView::Comment {
            span,
            data: joined(texts(lines@)),
            lengths: line_lengths(texts(lines@)),
        }),
{
    let ghost all = texts(lines@);
    let mut lengths: Vec<usize> = Vec::new();
    let mut s = String::new();
    let mut i: usize = 0;
    while i < lines.len()
        invariant
            i <= lines.len(),
            all == texts(lines@),
            s@ == joined(all.subrange(0, i as int)),
            lengths@ == line_lengths(all.subrange(0, i as int)),
        decreases lines.len() - i,
    {
        let c = lines[i].as_str();
        proof {
            lemma_byte_len_is_encoded_len(c@);
            assert(all[i as int] == c@);
            assert(all.subrange(0, i + 1).drop_last() =~= all.subrange(0, i as int));
            assert(all.subrange(0, i + 1).last() == c@);
        }
        let ghost before_lengths = lengths@;
        lengths.push(c.len());
        if i > 0 {
            s.push('\n');
        }
        s.append(c);
        proof {
            assert(lengths@ =~= line_lengths(all.subrange(0, i + 1)));
            if i == 0 {
                assert(s@ =~= c@);
            } else {
                assert(s@ =~= joined(all.subrange(0, i as int)) + seq!['\n'] + c@);
            }
        }
        i += 1;
    }
    assert(all.subrange(0, i as int) =~= all);
    Event::comment(span, s, lengths)
}

} // verus!
