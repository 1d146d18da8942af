//! What holds of the events that a parser gives one after another.
use vstd::multiset::Multiset;
use vstd::prelude::*;
use crate::error::HmlErrorView;
use crate::hml_reader::parser::{Outcome, ParserView, Run, Step, next_step, run, span_of};
use crate::hml_reader::token::TokenView;
use crate::markup::event::EventView;
use crate::names::name::Name;
use crate::names::namespace_stack::NamespaceStackView;

verus! {

/// The names of the open elements that have started, the outermost first.
/// The innermost open element has not started while it takes attributes.
pub open spec fn open_names(p: ParserView) -> Seq<Name> {
    let n = if p.start_element_building && p.tag_stack.len() > 0 {
        p.tag_stack.len() - 1
    } else {
        p.tag_stack.len() as int
    };
    Seq::new(n as nat, |i: int| p.tag_stack[i].tag_name)
}

/// The number of frames of the namespace stack beside those of the open
/// elements.
pub open spec fn base_depth(p: ParserView, ns: NamespaceStackView) -> int {
    ns.frames.len() - p.tag_stack.len()
}

/// Whether what a step gave, from the parser `p` to the parser `q`, keeps
/// the names of the started elements in step with the events: the start of
/// an element adds its name, the end of an element takes away the last
/// name, which it bears, and nothing else changes them.
pub open spec fn names_follow(p: ParserView, q: ParserView, e: Option<EventView>) -> bool {
    match e {
        Some(EventView::StartElement { tag, .. }) => open_names(q) == open_names(p).push(tag.name),
        Some(EventView::EndElement { name, .. }) => open_names(p).len() > 0 && open_names(
            p,
        ).last() == name && open_names(q) == open_names(p).drop_last(),
        _ => open_names(q) == open_names(p),
    }
}

/// The event of an outcome, if it is one.
pub open spec fn event_of(o: Outcome) -> Option<EventView> {
    match o {
        Outcome::Event(e) => Some(e),
        _ => None,
    }
}

/// One step keeps the parser well-formed and the namespace stack in step
/// with the open elements, and the names of the started elements follow
/// the event that it gives.
pub proof fn lemma_step(
    p: ParserView,
    ns: NamespaceStackView,
    toks: Seq<Result<TokenView, HmlErrorView>>,
)
    requires
        p.wf(),
        p.fits(ns),
        p.start_emitted,
        !p.end_emitted,
    ensures
        ({
            let step = next_step(p, ns, toks).0;
            &&& step.parser.wf()
            &&& step.parser.fits(step.ns)
            &&& base_depth(step.parser, step.ns) == base_depth(p, ns)
            &&& !(step.outcome is Failed) ==> names_follow(p, step.parser, event_of(step.outcome))
            &&& step.parser.start_emitted == p.start_emitted
            &&& !step.parser.finished ==> !p.finished
            &&& step.outcome is Event ==> !(step.outcome->Event_0 is StartDocument) && !(
            step.outcome->Event_0 is EndDocument)
        }),
{
    let step = next_step(p, ns, toks).0;
    let q = step.parser;
    assert(open_names(q) =~= open_names(q));
    match step.outcome {
        Outcome::Event(EventView::StartElement { tag, .. }) => {
            assert(open_names(q) =~= open_names(p).push(tag.name));
        },
        Outcome::Event(EventView::EndElement { name, .. }) => {
            assert(open_names(q) =~= open_names(p).drop_last());
        },
        Outcome::Failed(_) => {},
        _ => {
            assert(open_names(q) =~= open_names(p));
        },
    }
}

/// Asking the parser for an event keeps it well-formed and the namespace
/// stack in step with the open elements, and the names of the started
/// elements follow the event. The start of the document comes only from a
/// parser that has not given it; the end of the document only when no
/// element is open, and it finishes the parser.
pub proof fn lemma_run(
    p: ParserView,
    ns: NamespaceStackView,
    toks: Seq<Result<TokenView, HmlErrorView>>,
)
    requires
        p.wf(),
        p.fits(ns),
    ensures
        ({
            let r = run(p, ns, toks);
            &&& r.parser.wf()
            &&& r.parser.fits(r.ns)
            &&& base_depth(r.parser, r.ns) == base_depth(p, ns)
            &&& r.result is Ok ==> names_follow(p, r.parser, Some(r.result->Ok_0))
            &&& r.result is Ok ==> r.parser.start_emitted && !p.finished
            &&& r.result matches Ok(EventView::StartDocument { .. }) ==> !p.start_emitted
            &&& r.result is Ok && !(r.result->Ok_0 is StartDocument) ==> p.start_emitted
            &&& r.result matches Ok(EventView::EndDocument { .. }) ==> r.parser.finished
                && r.parser.tag_stack.len() == 0
            &&& r.result is Ok && !(r.result->Ok_0 is EndDocument) ==> !r.parser.finished
        }),
    decreases toks.len(), p.rank(),
{
    if !p.start_emitted {
        assert(open_names(ParserView { start_emitted: true, ..p }) =~= open_names(p));
    } else if p.finished {
    } else if p.end_emitted {
        assert(open_names(ParserView { finished: true, ..p }) =~= open_names(p));
    } else {
        let (step, rest) = next_step(p, ns, toks);
        lemma_step(p, ns, toks);
        crate::hml_reader::parser::lemma_step_decreases(p, ns, toks);
        match step.outcome {
            Outcome::Continue => {
                lemma_run(step.parser, step.ns, rest);
            },
            _ => {},
        }
    }
}

/// The names of the elements that are open after the first `k` of
/// `events`, the outermost first; `None` where an element ends that is not
/// the innermost open one, or that bears another name than it started
/// with.
pub open spec fn balance(events: Seq<EventView>, k: int) -> Option<Seq<Name>>
    decreases k,
{
    if k <= 0 {
        Some(Seq::empty())
    } else {
        match balance(events, k - 1) {
            None => None,
            Some(open) => match events[k - 1] {
                EventView::StartElement { tag, .. } => Some(open.push(tag.name)),
                EventView::EndElement { name, .. } => if open.len() > 0 && open.last() == name {
                    Some(open.drop_last())
                } else {
                    None
                },
                _ => Some(open),
            },
        }
    }
}

/// Whether `events` are well-matched: every element that starts ends,
/// with the name that it started with and after all the elements that
/// started within it, and no element ends that did not start.
pub open spec fn well_matched(events: Seq<EventView>) -> bool {
    balance(events, events.len() as int) == Some(Seq::<Name>::empty())
}

/// The names of the elements that start among the first `k` of `events`,
/// each as often as it starts.
pub open spec fn started(events: Seq<EventView>, k: int) -> Multiset<Name>
    decreases k,
{
    if k <= 0 {
        Multiset::empty()
    } else {
        match events[k - 1] {
            EventView::StartElement { tag, .. } => started(events, k - 1).insert(tag.name),
            _ => started(events, k - 1),
        }
    }
}

/// The names of the elements that end among the first `k` of `events`,
/// each as often as it ends.
pub open spec fn ended(events: Seq<EventView>, k: int) -> Multiset<Name>
    decreases k,
{
    if k <= 0 {
        Multiset::empty()
    } else {
        match events[k - 1] {
            EventView::EndElement { name, .. } => ended(events, k - 1).insert(name),
            _ => ended(events, k - 1),
        }
    }
}

/// Among events that are matched so far, the names that have started are
/// those that have ended and those of the elements that are open.
pub proof fn lemma_balance_counts(events: Seq<EventView>, k: int)
    requires
        0 <= k <= events.len(),
        balance(events, k) is Some,
    ensures
        started(events, k) == ended(events, k).add(balance(events, k)->0.to_multiset()),
    decreases k,
{
    broadcast use vstd::multiset::group_multiset_axioms;

    if k == 0 {
        assert(Seq::<Name>::empty().to_multiset() =~= Multiset::<Name>::empty()) by {
            Seq::<Name>::empty().to_multiset_ensures();
        }
        assert(started(events, k) =~= ended(events, k).add(balance(events, k)->0.to_multiset()));
    } else {
        lemma_balance_counts(events, k - 1);
        let open = balance(events, k - 1)->0;
        match events[k - 1] {
            EventView::StartElement { tag, .. } => {
                vstd::seq_lib::to_multiset_build(open, tag.name);
            },
            EventView::EndElement { name, .. } => {
                vstd::seq_lib::to_multiset_build(open.drop_last(), name);
                assert(open.drop_last().push(name) =~= open);
            },
            _ => {},
        }
        assert(started(events, k) =~= ended(events, k).add(balance(events, k)->0.to_multiset()));
    }
}

/// Among well-matched events each name starts as often as it ends.
pub proof fn lemma_well_matched_counts(events: Seq<EventView>)
    requires
        well_matched(events),
    ensures
        started(events, events.len() as int) == ended(events, events.len() as int),
{
    broadcast use vstd::multiset::group_multiset_axioms;

    lemma_balance_counts(events, events.len() as int);
    Seq::<Name>::empty().to_multiset_ensures();
    assert(Seq::<Name>::empty().to_multiset() =~= Multiset::<Name>::empty());
    assert(started(events, events.len() as int) =~= ended(events, events.len() as int));
}

/// A parser with its namespace stack and what its source has yet to give.
pub ghost struct Reading {
    pub parser: ParserView,
    pub ns: NamespaceStackView,
    pub toks: Seq<Result<TokenView, HmlErrorView>>,
}

/// Whether `events` are what a parser gave one after another, going
/// through `states`: asked in each state but the last, it gave the event of
/// that place and came to the next state.
pub open spec fn is_trace(states: Seq<Reading>, events: Seq<EventView>) -> bool {
    &&& states.len() == events.len() + 1
    &&& forall|i: int|
        0 <= i < events.len() ==> #[trigger] run(states[i].parser, states[i].ns, states[i].toks)
            == (Run {
            parser: states[i + 1].parser,
            ns: states[i + 1].ns,
            toks: states[i + 1].toks,
            result: Ok(events[i]),
        })
}

/// Along the events that a new parser gives, the elements that are open by
/// the events are those that are open in the parser, and the namespace
/// stack has one frame for each of them beside those that it had at first.
pub proof fn lemma_trace(states: Seq<Reading>, events: Seq<EventView>, version: usize, k: int)
    requires
        is_trace(states, events),
        states[0].parser == ParserView::initial(version),
        0 <= k <= events.len(),
    ensures
        states[k].parser.wf(),
        states[k].parser.fits(states[k].ns),
        balance(events, k) == Some(open_names(states[k].parser)),
        states[k].ns.frames.len() == states[0].ns.frames.len() + states[k].parser.tag_stack.len(),
        k > 0 ==> states[k].parser.start_emitted,
        forall|i: int| 0 <= i < k ==> ((#[trigger] events[i]) is StartDocument <==> i == 0),
        forall|i: int| 0 <= i < k && (#[trigger] events[i]) is EndDocument ==> i == k - 1,
        states[k].parser.finished <==> (k > 0 && events[k - 1] is EndDocument),
    decreases k,
{
    if k == 0 {
        assert(open_names(states[0].parser) =~= Seq::<Name>::empty());
    } else {
        lemma_trace(states, events, version, k - 1);
        let s = states[k - 1];
        lemma_run(s.parser, s.ns, s.toks);
        assert(run(s.parser, s.ns, s.toks).result == Ok::<EventView, HmlErrorView>(events[k - 1]));
    }
}

/// The events of a document are well-matched.
///
/// Where a new parser has given events up to the end of the document, the
/// first of them, and no other, is the start of the document; the last,
/// and no other, is its end; each element that starts ends, with the name
/// that it started with and after all the elements that started within
/// it; and no element ends that did not start.
pub proof fn lemma_document_well_matched(
    states: Seq<Reading>,
    events: Seq<EventView>,
    version: usize,
)
    requires
        is_trace(states, events),
        states[0].parser == ParserView::initial(version),
        events.len() > 0,
        events.last() is EndDocument,
    ensures
        well_matched(events),
        events[0] is StartDocument,
        forall|i: int| 0 < i < events.len() ==> !((#[trigger] events[i]) is StartDocument),
        forall|i: int| 0 <= i < events.len() - 1 ==> !((#[trigger] events[i]) is EndDocument),
{
    let n = events.len() as int;
    lemma_trace(states, events, version, n);
    lemma_trace(states, events, version, n - 1);
    let s = states[n - 1];
    lemma_run(s.parser, s.ns, s.toks);
    assert(run(s.parser, s.ns, s.toks).result == Ok::<EventView, HmlErrorView>(events[n - 1]));
    assert(open_names(states[n].parser) =~= Seq::<Name>::empty());
}

/// The namespace stack is as deep after a document as before it.
///
/// Where a new parser has given events up to the end of the document, the
/// namespace stack has as many frames as it had when the parser was first
/// asked; at any time before, it has one more for each open element.
pub proof fn lemma_namespace_depth_restored(
    states: Seq<Reading>,
    events: Seq<EventView>,
    version: usize,
)
    requires
        is_trace(states, events),
        states[0].parser == ParserView::initial(version),
        events.len() > 0,
        events.last() is EndDocument,
    ensures
        states.last().ns.frames.len() == states[0].ns.frames.len(),
{
    let n = events.len() as int;
    lemma_trace(states, events, version, n);
    lemma_trace(states, events, version, n - 1);
    let s = states[n - 1];
    lemma_run(s.parser, s.ns, s.toks);
    assert(run(s.parser, s.ns, s.toks).result == Ok::<EventView, HmlErrorView>(events[n - 1]));
}

/// Whether `span` is where an event of a step of the parser `p` belongs,
/// `t` being the token that the step handles, if it handles one: it is the
/// span of that token, or of the opening tag of the innermost open element,
/// or of the closing tag that waits; or it is the empty span at the start
/// of the tag that waits, or at the end of the last token.
pub open spec fn anchored(span: crate::reader::span::Span, p: ParserView, t: Option<TokenView>) -> bool {
    ||| t matches Some(token) && span == token.span()
    ||| p.tag_stack.len() > 0 && span == p.tag_stack.last().open_tag.span
    ||| p.pending_close_tag matches Some(c) && (span == c.span || span == span_of(c.span.start))
    ||| p.pending_open_tag matches Some(o) && span == span_of(o.span.start)
    ||| span == span_of(p.token_pos)
}

/// The token that the next step of the parser `p` handles, if it handles
/// one: the token that waits, or else the next of the source.
pub open spec fn handled_token(
    p: ParserView,
    toks: Seq<Result<TokenView, HmlErrorView>>,
) -> Option<TokenView> {
    if p.pending_eof || p.pending_close_tag is Some || p.pending_open_tag is Some {
        None
    } else if p.pending_token is Some {
        p.pending_token
    } else if toks.len() > 0 && toks[0] is Ok {
        Some(toks[0]->Ok_0)
    } else {
        None
    }
}

/// The span of an event is that of the token which brought it about, or
/// touches it.
///
/// A comment and content have the span of their token; the start of an
/// element has the span of its opening tag; the end of an element has the
/// span of the closing tag that ends it, or is empty and lies at the start
/// of the tag before which the element ends, or at the end of the last
/// token where the text ends.
pub proof fn lemma_event_span(
    p: ParserView,
    ns: NamespaceStackView,
    toks: Seq<Result<TokenView, HmlErrorView>>,
)
    ensures
        next_step(p, ns, toks).0.outcome matches Outcome::Event(e) ==> anchored(
            e.span(),
            p,
            handled_token(p, toks),
        ),
{
}

} // verus!
