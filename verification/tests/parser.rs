use hml_rs::error::{HmlError, MarkupError};
use hml_rs::hml_reader::lexer::{Lexer, TokenList};
use hml_rs::hml_reader::parser::Parser;
use hml_rs::hml_reader::token::Token;
use hml_rs::markup::event::{ContentType, Event, EventType};
use hml_rs::names::name::Name;
use hml_rs::names::namespace::Namespace;
use hml_rs::names::namespace_stack::NamespaceStack;
use hml_rs::names::tag::Tag;
use hml_rs::reader::position::Position;
use hml_rs::reader::span::Span;

#[derive(Debug)]
enum Expectation<'a> {
    StD(usize),
    StE(&'a str, &'a str, &'a [(&'a str, &'a str, &'a str)]),
    Content(ContentType, &'a str),
    EndE,
    EndD,
}

use Expectation::{Content, EndD, EndE, StD, StE};

fn match_open(
    stack: &mut Vec<Name>,
    ns_stack: &NamespaceStack,
    tag: Tag,
    uri: &str,
    name: &str,
    attrs: &[(&str, &str, &str)],
) -> bool {
    if ns_stack.name_str(tag.name.name) != name {
        return false;
    }
    if ns_stack.uri_str(tag.name.uri) != uri {
        return false;
    }
    stack.push(tag.name);
    let tag_attrs = tag.attributes.take();
    if tag_attrs.len() != attrs.len() {
        return false;
    }
    for (e, a) in attrs.iter().zip(tag_attrs) {
        if ns_stack.uri_str(a.name.uri) != e.0 {
            return false;
        }
        if ns_stack.name_str(a.name.name) != e.1 {
            return false;
        }
        if a.value != e.2 {
            return false;
        }
    }
    true
}

fn test_string(text: &str, exp: &[Expectation]) {
    let mut namespace = Namespace::new(true);
    let mut namespace_stack = NamespaceStack::new(&mut namespace);
    namespace_stack.add_null_ns();
    let mut lexer = Lexer::new(text);
    let mut parser = Parser::default();
    let mut stack: Vec<Name> = Vec::new();
    let mut errors: Vec<String> = Vec::new();
    let mut index = 0;
    loop {
        let t = parser.next_event(&mut namespace_stack, &mut lexer);
        let eof = matches!(&t, Ok(e) if e.is_end_document());
        let is_err = t.is_err();
        index += 1;
        if index > exp.len() {
            errors.push(format!("Ran out of expectations, got {:?}", t));
            break;
        }
        let shown = format!("{:?}", t);
        let pass = match (&exp[index - 1], t) {
            (StD(v), Ok(e)) => e.as_start_document() == Some(*v),
            (EndD, Ok(e)) => e.is_end_document(),
            (StE(ns, name, attrs), Ok(e)) => match e.as_start_element() {
                Some(tag) => match_open(&mut stack, &namespace_stack, tag, ns, name, attrs),
                None => false,
            },
            (EndE, Ok(e)) => match e.as_end_element() {
                Some(name) => stack.pop() == Some(*name),
                None => false,
            },
            (Content(et, es), Ok(e)) => match e.as_content() {
                Some((ct, cs)) => *et == ct && *es == cs,
                None => false,
            },
            (_, Err(_)) => false,
        };
        if !pass {
            errors.push(format!("Expected {:?}, got {}", exp[index - 1], shown));
            if is_err {
                break;
            }
        }
        if eof {
            break;
        }
    }
    for e in &errors {
        println!("FAIL: {}", e);
    }
    assert!(errors.is_empty());
    assert_eq!(index, exp.len());
    assert_eq!(namespace_stack.stack_depth(), 1);
}

#[test]
fn test_structure() {
    test_string(
        "#svg ##line ##text",
        &[
            StD(100),
            StE("", "svg", &[]),
            StE("", "line", &[]),
            EndE,
            StE("", "text", &[]),
            EndE,
            EndE,
            EndD,
        ],
    );
}

#[test]
fn test_structure1() {
    test_string(
        "#svg ##rect ##text",
        &[
            StD(100),
            StE("", "svg", &[]),
            StE("", "rect", &[]),
            EndE,
            StE("", "text", &[]),
            EndE,
            EndE,
            EndD,
        ],
    );
}

#[test]
fn test_structure2() {
    test_string(
        "#svg ##box{ ##box}",
        &[
            StD(100),
            StE("", "svg", &[]),
            StE("", "box", &[]),
            EndE,
            EndE,
            EndD,
        ],
    );
}

#[test]
fn test_structure3() {
    test_string(
        "#svg ##box{ #line ##box}",
        &[
            StD(100),
            StE("", "svg", &[]),
            StE("", "box", &[]),
            StE("", "line", &[]),
            EndE,
            EndE,
            EndE,
            EndD,
        ],
    );
}

#[test]
fn test_structure4() {
    test_string(
        "#svg ##box{ #line #line ##box}",
        &[
            StD(100),
            StE("", "svg", &[]),
            StE("", "box", &[]),
            StE("", "line", &[]),
            EndE,
            StE("", "line", &[]),
            EndE,
            EndE,
            EndE,
            EndD,
        ],
    );
}

#[test]
fn test_structure5() {
    test_string(
        "#svg ##box{ #innerbox{ #line #innerbox} ##box}",
        &[
            StD(100),
            StE("", "svg", &[]),
            StE("", "box", &[]),
            StE("", "innerbox", &[]),
            StE("", "line", &[]),
            EndE,
            EndE,
            EndE,
            EndE,
            EndD,
        ],
    );
}

#[test]
fn test_parser_test_blah() {
    test_string(
        "#svg ##line ##text",
        &[
            StD(100),
            StE("", "svg", &[]),
            StE("", "line", &[]),
            EndE,
            StE("", "text", &[]),
            EndE,
            EndE,
            EndD,
        ],
    );
}

#[test]
fn test_blah2() {
    test_string(
        "#svg ##box{ ##box}",
        &[
            StD(100),
            StE("", "svg", &[]),
            StE("", "box", &[]),
            EndE,
            EndE,
            EndD,
        ],
    );
}

#[test]
fn test_blah3() {
    test_string(
        "#svg ##box{ #line ##box}",
        &[
            StD(100),
            StE("", "svg", &[]),
            StE("", "box", &[]),
            StE("", "line", &[]),
            EndE,
            EndE,
            EndE,
            EndD,
        ],
    );
}

#[test]
fn test_blah4() {
    test_string(
        "#svg ##box{ #line #line ##box}",
        &[
            StD(100),
            StE("", "svg", &[]),
            StE("", "box", &[]),
            StE("", "line", &[]),
            EndE,
            StE("", "line", &[]),
            EndE,
            EndE,
            EndE,
            EndD,
        ],
    );
}

#[test]
fn test_blah5() {
    test_string(
        "#svg ##box{ #innerbox{ #line #innerbox} ##box}",
        &[
            StD(100),
            StE("", "svg", &[]),
            StE("", "box", &[]),
            StE("", "innerbox", &[]),
            StE("", "line", &[]),
            EndE,
            EndE,
            EndE,
            EndE,
            EndD,
        ],
    );
}

#[test]
fn test_parser_test_attr1() {
    test_string(
        "#svg a='1' ##line b='2'",
        &[
            StD(100),
            StE("", "svg", &[("", "a", "1")]),
            StE("", "line", &[("", "b", "2")]),
            EndE,
            EndE,
            EndD,
        ],
    );
}

#[test]
fn test_parser_test_attr2() {
    test_string(
        "#svg a='1' b='2' ##line ",
        &[
            StD(100),
            StE("", "svg", &[("", "a", "1"), ("", "b", "2")]),
            StE("", "line", &[]),
            EndE,
            EndE,
            EndD,
        ],
    );
}

#[test]
fn test_parser_test_attr3() {
    test_string(
        "#svg ##box{ a='1' b='2' ##box} ##line ",
        &[
            StD(100),
            StE("", "svg", &[]),
            StE("", "box", &[("", "a", "1"), ("", "b", "2")]),
            EndE,
            StE("", "line", &[]),
            EndE,
            EndE,
            EndD,
        ],
    );
}

#[test]
fn test_parser_test_ns() {
    test_string(
        "#svg ##box{ xmlns='https://fred' ##box} ##line ",
        &[
            StD(100),
            StE("", "svg", &[]),
            StE("https://fred", "box", &[("http://www.w3.org/2000/xmlns/", "xmlns", "https://fred")]),
            EndE,
            StE("", "line", &[]),
            EndE,
            EndE,
            EndD,
        ],
    );
}

#[test]
fn test_parser_test_ns2() {
    test_string(
        "#svg ##box{ xmlns='https://fred' b='2' ##box} ##line ",
        &[
            StD(100),
            StE("", "svg", &[]),
            StE("https://fred", "box", &[("http://www.w3.org/2000/xmlns/", "xmlns", "https://fred"), ("https://fred", "b", "2")]),
            EndE,
            StE("", "line", &[]),
            EndE,
            EndE,
            EndD,
        ],
    );
}

#[test]
fn test_parser_test_ns3() {
    test_string(
        "#svg ##box{ xmlns:blob='https://fred' b='2' ##box} ##line ",
        &[
            StD(100),
            StE("", "svg", &[]),
            StE("", "box", &[("http://www.w3.org/2000/xmlns/", "blob", "https://fred"), ("", "b", "2")]),
            EndE,
            StE("", "line", &[]),
            EndE,
            EndE,
            EndD,
        ],
    );
}

#[test]
fn test_content0() {
    test_string(
        r###"#svg "banana" "###,
        &[
            StD(100),
            StE("", "svg", &[]),
            Content(ContentType::Interpretable, "banana"),
            EndE,
            EndD,
        ],
    );
}

#[test]
fn test_content1() {
    test_string(
        r###"#svg ##"banana"## "###,
        &[
            StD(100),
            StE("", "svg", &[]),
            Content(ContentType::Interpretable, "banana"),
            EndE,
            EndD,
        ],
    );
    test_string(
        "#svg ##\"banana\n\"## ",
        &[
            StD(100),
            StE("", "svg", &[]),
            Content(ContentType::Interpretable, "banana\n"),
            EndE,
            EndD,
        ],
    );
    test_string(
        "#svg ##'banana\n'## ",
        &[
            StD(100),
            StE("", "svg", &[]),
            Content(ContentType::Interpretable, "banana\n"),
            EndE,
            EndD,
        ],
    );
    test_string(
        r###"#svg r'banana' "###,
        &[
            StD(100),
            StE("", "svg", &[]),
            Content(ContentType::Raw, "banana"),
            EndE,
            EndD,
        ],
    );
    test_string(
        r###"#svg r#'banana'# "###,
        &[
            StD(100),
            StE("", "svg", &[]),
            Content(ContentType::Raw, "banana"),
            EndE,
            EndD,
        ],
    );
    test_string(
        "#svg r#'banana\n'# ",
        &[
            StD(100),
            StE("", "svg", &[]),
            Content(ContentType::Raw, "banana\n"),
            EndE,
            EndD,
        ],
    );
    test_string(
        r###"#svg r##'banana'#' '## "###,
        &[
            StD(100),
            StE("", "svg", &[]),
            Content(ContentType::Raw, "banana'#' "),
            EndE,
            EndD,
        ],
    );
    test_string(
        r###"#svg r##'banana'#''## "###,
        &[
            StD(100),
            StE("", "svg", &[]),
            Content(ContentType::Raw, "banana'#'"),
            EndE,
            EndD,
        ],
    );
}

#[test]
fn content_of_several_lines() {
    test_string(
        "#svg ##\"line1\nline2\"##",
        &[
            StD(100),
            StE("", "svg", &[]),
            Content(ContentType::Interpretable, "line1\nline2"),
            EndE,
            EndD,
        ],
    );
}

#[test]
fn raw_content_keeps_a_quote_with_fewer_hashes() {
    test_string(
        "#svg r##'banana'#' '##",
        &[
            StD(100),
            StE("", "svg", &[]),
            Content(ContentType::Raw, "banana'#' "),
            EndE,
            EndD,
        ],
    );
}

#[test]
fn declared_prefix_holds_for_the_element_itself() {
    test_string(
        "#p:svg xmlns:p='urn:one' p:a='1' b='2'",
        &[
            StD(100),
            StE(
                "urn:one",
                "svg",
                &[
                    ("http://www.w3.org/2000/xmlns/", "p", "urn:one"),
                    ("urn:one", "a", "1"),
                    ("", "b", "2"),
                ],
            ),
            EndE,
            EndD,
        ],
    );
}

#[test]
fn boxed_element_takes_children_of_depth_one() {
    test_string(
        "#tag{ #child #tag}",
        &[
            StD(100),
            StE("", "tag", &[]),
            StE("", "child", &[]),
            EndE,
            EndE,
            EndD,
        ],
    );
}

#[test]
fn boxed_element_of_depth_two_within_depth_one() {
    test_string(
        "#a ##tag{ ##tag}",
        &[
            StD(100),
            StE("", "a", &[]),
            StE("", "tag", &[]),
            EndE,
            EndE,
            EndD,
        ],
    );
}

fn events_of(text: &str) -> (Vec<Event>, Option<HmlError>, usize) {
    let mut namespace = Namespace::new(true);
    let mut namespace_stack = NamespaceStack::new(&mut namespace);
    let mut lexer = Lexer::new(text);
    let mut parser = Parser::new();
    let mut events = Vec::new();
    let mut error = None;
    loop {
        match parser.next_event(&mut namespace_stack, &mut lexer) {
            Ok(e) => {
                let end = e.is_end_document();
                events.push(e);
                if end {
                    break;
                }
            }
            Err(e) => {
                error = Some(e);
                break;
            }
        }
    }
    (events, error, namespace_stack.stack_depth())
}

fn types_of(events: &[Event]) -> Vec<EventType> {
    events.iter().map(|e| e.get_type()).collect()
}

#[test]
fn tag_two_deeper_than_the_depth_is_rejected() {
    let (events, error, _) = events_of("#a ###tag");
    assert_eq!(
        types_of(&events),
        vec![EventType::StartDocument, EventType::StartElement]
    );
    match error {
        Some(HmlError::UnexpectedTagIndent { span, depth }) => {
            assert_eq!(depth, 2);
            assert_eq!(span.start.byte, 3);
            assert_eq!(span.end.byte, 9);
        }
        other => panic!("unexpected {:?}", other),
    }
}

#[test]
fn attribute_outside_an_opening_tag_is_rejected() {
    let (events, error, _) = events_of("#a 'text' b='1'");
    assert_eq!(
        types_of(&events),
        vec![
            EventType::StartDocument,
            EventType::StartElement,
            EventType::Content
        ]
    );
    match error {
        Some(HmlError::UnexpectedAttribute { attr, .. }) => assert_eq!(attr, ":b"),
        other => panic!("unexpected {:?}", other),
    }
}

#[test]
fn unmapped_prefix_is_reported_over_the_tag() {
    let (events, error, _) = events_of("#a ##q:b c='1' ");
    assert_eq!(
        types_of(&events),
        vec![EventType::StartDocument, EventType::StartElement]
    );
    match error {
        Some(HmlError::MarkupError { span, source }) => {
            assert_eq!(
                source,
                MarkupError::UnmappedPrefix {
                    prefix: "q".to_string()
                }
            );
            assert_eq!(span.start.byte, 3);
            assert_eq!(span.end.byte, 8);
        }
        other => panic!("unexpected {:?}", other),
    }
}

#[test]
fn closing_tag_without_an_open_element_is_rejected() {
    let (events, error, _) = events_of("#a} ");
    assert_eq!(types_of(&events), vec![EventType::StartDocument]);
    match error {
        Some(HmlError::UnexpectedTagIndent { depth, .. }) => assert_eq!(depth, 1),
        other => panic!("unexpected {:?}", other),
    }
}

#[test]
fn error_of_the_lexer_is_the_error_of_the_parser() {
    let (events, error, _) = events_of("#a !");
    assert_eq!(
        types_of(&events),
        vec![EventType::StartDocument]
    );
    match error {
        Some(HmlError::UnexpectedCharacter { ch, span }) => {
            assert_eq!(ch, '!');
            assert_eq!(span.start.byte, 3);
        }
        other => panic!("unexpected {:?}", other),
    }
}

#[test]
fn asking_after_the_end_is_an_error() {
    let mut namespace = Namespace::new(false);
    let mut namespace_stack = NamespaceStack::new(&mut namespace);
    let mut lexer = Lexer::new("");
    let mut parser = Parser::default().set_version(110);
    let first = parser.next_event(&mut namespace_stack, &mut lexer).unwrap();
    assert_eq!(first.as_start_document(), Some(110));
    let last = parser.next_event(&mut namespace_stack, &mut lexer).unwrap();
    assert!(last.is_end_document());
    let after = parser.next_event(&mut namespace_stack, &mut lexer);
    assert_eq!(after.unwrap_err(), HmlError::BeyondEndOfTokens);
    assert_eq!(HmlError::BeyondEndOfTokens.borrow_span(), None);
}

#[test]
fn events_are_well_matched_and_the_stack_returns() {
    let text = "; a document\n#a x='1' ##b{ #c 'one' r#'two'# ; note\n #d ##b} ##e ###f ##g";
    let (events, error, depth) = events_of(text);
    assert!(error.is_none());
    assert_eq!(depth, 1);
    assert!(events.first().unwrap().is_start_document());
    assert!(events.last().unwrap().is_end_document());
    let mut open: Vec<Name> = Vec::new();
    let mut starts = 0;
    for e in events {
        match e {
            Event::StartElement { tag, .. } => {
                starts += 1;
                open.push(tag.name);
            }
            Event::EndElement { name, .. } => assert_eq!(open.pop(), Some(name)),
            _ => {}
        }
    }
    assert!(open.is_empty());
    assert_eq!(starts, 7);
}

#[test]
fn comment_event_joins_its_lines() {
    let (events, error, _) = events_of("; one\n ;two \u{e9}\n#a");
    assert!(error.is_none());
    match &events[1] {
        Event::Comment { data, lengths, span } => {
            assert_eq!(data, " one\ntwo \u{e9}");
            assert_eq!(lengths, &vec![4, 6]);
            assert_eq!(span.start.byte, 0);
            assert_eq!(span.end.byte, 15);
            assert_eq!(span.end.line, 3);
            assert_eq!(span.end.column, 1);
        }
        other => panic!("unexpected {:?}", other),
    }
}

#[test]
fn spans_of_events() {
    let (events, error, _) = events_of("#a b='1'\n ##c 'x'");
    assert!(error.is_none());
    let spans: Vec<(usize, usize)> = events
        .iter()
        .map(|e| (e.borrow_span().start().byte_ofs(), e.borrow_span().end().byte_ofs()))
        .collect();
    assert_eq!(
        spans,
        vec![(0, 0), (0, 2), (10, 13), (14, 17), (17, 17), (17, 17), (17, 17)]
    );
    let last = events.last().unwrap().borrow_span().end();
    assert_eq!((last.line(), last.column()), (2, 9));
}

fn span_at(byte: usize) -> Span {
    let p = Position {
        byte,
        line: 1,
        column: byte + 1,
        index: byte,
    };
    Span::new_at(&p)
}

fn events_of_tokens(tokens: Vec<Token>) -> (Vec<EventType>, Option<HmlError>) {
    let mut namespace = Namespace::new(true);
    let mut namespace_stack = NamespaceStack::new(&mut namespace);
    let mut source = TokenList::new(tokens);
    let mut parser = Parser::new();
    let mut types = Vec::new();
    loop {
        match parser.next_event(&mut namespace_stack, &mut source) {
            Ok(e) => {
                types.push(e.get_type());
                if e.is_end_document() {
                    assert_eq!(parser.open_elements(), 0);
                    assert_eq!(namespace_stack.stack_depth(), 1);
                    return (types, None);
                }
            }
            Err(e) => return (types, Some(e)),
        }
    }
}

#[test]
fn end_of_the_tokens_is_made_up() {
    let tokens = vec![
        Token::whitespace(span_at(0)),
        Token::open(span_at(1), "".to_string(), "a".to_string(), 1),
        Token::attribute(span_at(2), "".to_string(), "b".to_string(), "1".to_string()),
        Token::whitespace(span_at(3)),
        Token::comment(span_at(4), vec!["x".to_string(), "y".to_string()]),
        Token::raw_characters(span_at(5), "text".to_string()),
    ];
    let (types, error) = events_of_tokens(tokens);
    assert!(error.is_none());
    assert_eq!(
        types,
        vec![
            EventType::StartDocument,
            EventType::StartElement,
            EventType::Comment,
            EventType::Content,
            EventType::EndElement,
            EventType::EndDocument,
        ]
    );
}

#[test]
fn depth_of_tags_given_by_hand() {
    let open = |d: usize, name: &str| Token::open(span_at(d), "".to_string(), name.to_string(), d);
    let (types, error) = events_of_tokens(vec![open(1, "a"), open(3, "b")]);
    assert_eq!(
        types,
        vec![EventType::StartDocument, EventType::StartElement]
    );
    assert_eq!(
        error,
        Some(HmlError::UnexpectedTagIndent {
            span: span_at(3),
            depth: 2
        })
    );

    let (types, error) = events_of_tokens(vec![open(0, "a")]);
    assert_eq!(types, vec![EventType::StartDocument]);
    assert_eq!(
        error,
        Some(HmlError::UnexpectedTagIndent {
            span: span_at(0),
            depth: 1
        })
    );

    let boxed = Token::open_boxed(span_at(1), "".to_string(), "a".to_string(), 1);
    let close = Token::close(span_at(9), "".to_string(), "a".to_string(), 1);
    let (types, error) =
        events_of_tokens(vec![boxed, open(1, "b"), open(2, "c"), open(1, "d"), close]);
    assert!(error.is_none());
    assert_eq!(
        types,
        vec![
            EventType::StartDocument,
            EventType::StartElement,
            EventType::StartElement,
            EventType::StartElement,
            EventType::EndElement,
            EventType::EndElement,
            EventType::StartElement,
            EventType::EndElement,
            EventType::EndElement,
            EventType::EndDocument,
        ]
    );
}

#[test]
fn errors_in_words() {
    assert_eq!(MarkupError::empty_name().to_string(), "empty name");
    assert_eq!(
        MarkupError::unmapped_prefix("p").to_string(),
        "unmapped_prefix p"
    );
    assert_eq!(MarkupError::bad_name("a:b:c").to_string(), "bad name a:b:c");
    let s = span_at(4);
    let e: Result<(), HmlError> = HmlError::unexpected_tag_indent(s, 12);
    assert_eq!(
        e.unwrap_err().to_string(),
        "Expected a tag indent of at most 12"
    );
    let e: Result<(), HmlError> = HmlError::unexpected_attribute(s, "p", "n");
    assert_eq!(
        e.unwrap_err().to_string(),
        "Found attribute when not expected p:n"
    );
    let e: Result<(), HmlError> = HmlError::unexpected_character(&s.start, &s.end, 'x');
    assert_eq!(e.unwrap_err().to_string(), "Unexpected character 'x'");
    let e: Result<(), HmlError> = HmlError::expected_equals(&s.start, &s.end, '!');
    assert_eq!(e.unwrap_err().to_string(), "Expected equals, but found '!'");
    let e: Result<(), HmlError> = HmlError::unexpected_eof(&s.start, &s.end);
    assert_eq!(e.unwrap_err().to_string(), "Unexpected EOF");
    let e: Result<(), HmlError> = HmlError::unexpected_newline_in_string(&s.start, &s.end);
    assert_eq!(
        e.unwrap_err().to_string(),
        "Unexpected newline in quoted string"
    );
    let e: Result<(), HmlError> = HmlError::no_more_events();
    assert_eq!(
        e.unwrap_err().to_string(),
        "Attempt to parse beyond end of tokens, probably a bug"
    );
    let e = HmlError::map_markup_error::<()>(Err(MarkupError::empty_name()), &s).unwrap_err();
    assert_eq!(e.to_string(), "markup error empty name");
    assert_eq!(e.borrow_span(), Some(&s));
    let e = HmlError::of_io_result::<()>(s, Err("gone".to_string())).unwrap_err();
    assert_eq!(e, HmlError::io_error(s, "gone".to_string()));
    assert_eq!(e.to_string(), "io error gone");
    assert_eq!(HmlError::of_io_result(s, Ok(3)), Ok(3));
    assert_eq!(
        HmlError::ExpectedTagName { span: s }.to_string(),
        "Expected a tag name after hashes"
    );
    assert_eq!(
        HmlError::ExpectedWhitespaceAfterTag { span: s }.to_string(),
        "Expected whitespace after tag"
    );
}
