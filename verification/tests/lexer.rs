use hml_rs::error::HmlError;
use hml_rs::hml_reader::lexer::{
    parse, parse_attribute, parse_fns, parse_quoted_string, parse_tag, Lexer, ParseFn,
    TokenSource,
};
use hml_rs::hml_reader::token::{Token, TokenType};
use hml_rs::hml_reader::utils::{
    is_hash, is_name, is_name_start, is_newline, is_quote, is_whitespace,
};
use hml_rs::reader::position::Position;
use hml_rs::reader::span::Span;
use hml_rs::reader::string::StringReader;

fn check_parse_comments() {
    let parsers = vec![ParseFn::Comment];

    let l = StringReader::new("not a comment");
    let posn = Position::default();
    let result = parse(&l, posn, &parsers);
    assert!(result.is_err());

    let l = StringReader::new("; This is a comment");
    let posn = Position::default();
    let result = parse(&l, posn, &parsers);
    assert!(!result.is_err());
    let result = result.unwrap();
    assert!(result.is_some());
    let (posn, token) = result.unwrap();
    assert_eq!(token.token_type(), TokenType::Comment);
    assert!(l.peek_at(&posn).is_none());
    assert_eq!(token.take_contents()[0], " This is a comment");

    let l = StringReader::new("    ; This is a comment");
    let posn = Position::default();
    let result = parse(&l, posn, &parsers);
    assert!(!result.is_err());
    let result = result.unwrap();
    assert!(result.is_some());
    let (posn, token) = result.unwrap();
    assert_eq!(token.token_type(), TokenType::Comment);
    assert!(l.peek_at(&posn).is_none());
    assert_eq!(token.take_contents()[0], " This is a comment");

    let l = StringReader::new(
        r#"    ; This is a multi-line comment
      ; with a second line
"#,
    );
    let posn = Position::default();
    let result = parse(&l, posn, &parsers);
    assert!(!result.is_err());
    let result = result.unwrap();
    assert!(result.is_some());
    let (posn, token) = result.unwrap();
    assert_eq!(token.token_type(), TokenType::Comment);
    assert!(l.peek_at(&posn).is_none());
    let contents = token.take_contents();
    assert_eq!(contents[0], " This is a multi-line comment");
    assert_eq!(contents[1], " with a second line");
}

fn check_parse_whitespace() {
    let parsers = vec![ParseFn::Whitespace];

    let l = StringReader::new("not a comment");
    let posn = Position::default();
    let result = parse(&l, posn, &parsers);
    assert!(result.is_err());

    let l = StringReader::new("     ");
    let posn = Position::default();
    let result = parse(&l, posn, &parsers);
    assert!(!result.is_err());
    let result = result.unwrap();
    assert!(result.is_some());
    let (posn, token) = result.unwrap();
    assert_eq!(token.token_type(), TokenType::Whitespace);
    assert!(l.peek_at(&posn).is_none());

    let l = StringReader::new("     ");
    let posn = Position::default();
    let result = parse(&l, posn, &parsers);
    assert!(!result.is_err());
    let result = result.unwrap();
    assert!(result.is_some());
    let (posn, token) = result.unwrap();
    assert_eq!(token.token_type(), TokenType::Whitespace);
    assert!(l.peek_at(&posn).is_none());
}

fn check_parse_comment_and_whitespace() {
    let parsers = vec![ParseFn::Whitespace, ParseFn::Comment];

    let l = StringReader::new("not a comment not whitespace");
    let posn = Position::default();
    let result = parse(&l, posn, &parsers);
    assert!(result.is_err());

    let l = StringReader::new(
        "   ; This is a comment after some whitespace and whitespace afterwards\n   ",
    );
    let posn = Position::default();
    let (posn, token) = parse(&l, posn, &parsers).unwrap().unwrap();
    assert_eq!(token.token_type(), TokenType::Whitespace);
    let (posn, token) = parse(&l, posn, &parsers).unwrap().unwrap();
    assert_eq!(token.token_type(), TokenType::Comment);
    assert_eq!(
        token.take_contents()[0],
        " This is a comment after some whitespace and whitespace afterwards"
    );
    let (posn, token) = parse(&l, posn, &parsers).unwrap().unwrap();
    assert_eq!(token.token_type(), TokenType::Whitespace);

    assert!(l.peek_at(&posn).is_none());
}

fn check_parse_tag() {
    let parsers = vec![ParseFn::Whitespace, ParseFn::Tag];

    let l = StringReader::new("not a tag");
    let posn = Position::default();
    let result = parse(&l, posn, &parsers);
    assert!(result.is_err());

    let l = StringReader::new("##name ###second  ##close} #open_me{  ##ns:name");
    let posn = Position::default();

    let (posn, token) = parse(&l, posn, &parsers).unwrap().unwrap();
    assert_eq!(token.token_type(), TokenType::TagOpen);
    assert_eq!(token.get_depth(), 2);
    assert!(!token.get_boxed());
    let contents = token.take_contents();
    assert_eq!(contents[0], "");
    assert_eq!(contents[1], "name");

    let (posn, token) = parse(&l, posn, &parsers).unwrap().unwrap();
    assert_eq!(token.token_type(), TokenType::Whitespace);

    let (posn, token) = parse(&l, posn, &parsers).unwrap().unwrap();
    assert_eq!(token.token_type(), TokenType::TagOpen);
    assert_eq!(token.get_depth(), 3);
    assert!(!token.get_boxed());

    let (posn, token) = parse(&l, posn, &parsers).unwrap().unwrap();
    assert_eq!(token.token_type(), TokenType::Whitespace);

    let (posn, token) = parse(&l, posn, &parsers).unwrap().unwrap();
    assert_eq!(token.token_type(), TokenType::TagClose);
    assert_eq!(token.get_depth(), 2);
    let contents = token.take_contents();
    assert_eq!(contents[0], "");
    assert_eq!(contents[1], "close");

    let (posn, token) = parse(&l, posn, &parsers).unwrap().unwrap();
    assert_eq!(token.token_type(), TokenType::Whitespace);

    let (posn, token) = parse(&l, posn, &parsers).unwrap().unwrap();
    assert_eq!(token.token_type(), TokenType::TagOpen);
    assert_eq!(token.get_depth(), 1);
    assert!(token.get_boxed());

    let (posn, token) = parse(&l, posn, &parsers).unwrap().unwrap();
    assert_eq!(token.token_type(), TokenType::Whitespace);

    let (posn, token) = parse(&l, posn, &parsers).unwrap().unwrap();
    assert_eq!(token.token_type(), TokenType::TagOpen);
    assert_eq!(token.get_depth(), 2);
    assert!(!token.get_boxed());
    let contents = token.take_contents();
    assert_eq!(contents[0], "ns");
    assert_eq!(contents[1], "name");

    assert!(l.peek_at(&posn).is_none());
}

fn check_parse_character_string() {
    let parsers = vec![ParseFn::Whitespace, ParseFn::CharacterString];

    let l = StringReader::new("not a tag");
    let posn = Position::default();
    let result = parse(&l, posn, &parsers);
    assert!(result.is_err());

    let l =
        StringReader::new("'a string'\"Another string\"####'quoted string'### more'####");
    let posn = Position::default();

    let (posn, token) = parse(&l, posn, &parsers).unwrap().unwrap();
    assert_eq!(token.token_type(), TokenType::Characters);
    let contents = token.take_contents();
    assert_eq!(contents[0], "a string");

    let (posn, token) = parse(&l, posn, &parsers).unwrap().unwrap();
    assert_eq!(token.token_type(), TokenType::Characters);
    let contents = token.take_contents();
    assert_eq!(contents[0], "Another string");

    let (posn, token) = parse(&l, posn, &parsers).unwrap().unwrap();
    assert_eq!(token.token_type(), TokenType::Characters);
    let contents = token.take_contents();
    assert_eq!(contents[0], "quoted string'### more");

    assert!(l.peek_at(&posn).is_none());
}

#[test]
fn lexer_parsers_test_parse_comments() {
    check_parse_comments();
}

#[test]
fn lexer_parsers_test_parse_whitespace() {
    check_parse_whitespace();
}

#[test]
fn lexer_parsers_test_parse_comment_and_whitespace() {
    check_parse_comment_and_whitespace();
}

#[test]
fn lexer_parsers_test_parse_tag() {
    check_parse_tag();
}

#[test]
fn lexer_parsers_test_parse_character_string() {
    check_parse_character_string();
}

#[test]
fn token_test_parse_comments() {
    check_parse_comments();
}

#[test]
fn token_test_parse_whitespace() {
    check_parse_whitespace();
}

#[test]
fn token_test_parse_comment_and_whitespace() {
    check_parse_comment_and_whitespace();
}

#[test]
fn token_test_parse_tag() {
    check_parse_tag();
}

#[test]
fn token_test_parse_character_string() {
    check_parse_character_string();
}

#[test]
fn test_parse_attribute() {
    let parsers = vec![ParseFn::Whitespace, ParseFn::Attribute];

    let l = StringReader::new("not a tag");
    let posn = Position::default();
    let result = parse(&l, posn, &parsers);
    assert!(result.is_err());

    let l = StringReader::new("not=1 fred='this'");
    let posn = Position::default();

    let (posn, token) = parse(&l, posn, &parsers).unwrap().unwrap();
    assert_eq!(token.token_type(), TokenType::Attribute);
    let contents = token.take_contents();
    assert_eq!(contents[0], "");
    assert_eq!(contents[1], "not");
    assert_eq!(contents[2], "1");

    let (posn, token) = parse(&l, posn, &parsers).unwrap().unwrap();
    assert_eq!(token.token_type(), TokenType::Whitespace);

    let (_posn, token) = parse(&l, posn, &parsers).unwrap().unwrap();
    assert_eq!(token.token_type(), TokenType::Attribute);
    let contents = token.take_contents();
    assert_eq!(contents[0], "");
    assert_eq!(contents[1], "fred");
    assert_eq!(contents[2], "this");
}

#[test]
fn test_lexer_test_blah() {
    let buf = r#####"; This is a comment
   ; with more comment
   #banana #fred:tob{ r='2' r"Raw string" ##"Stuff "  and more "##"#####;
    let mut lexer = Lexer::new(buf);
    loop {
        let t = lexer.next_token();
        assert_eq!(t.is_err(), false, "T should not be an error : {:?}", t);
        let token = t.unwrap();
        println!("{:?}", token);
        if token.is_eof() {
            break;
        }
    }
}

fn all_tokens(text: &str) -> (Vec<Token>, Option<HmlError>) {
    let mut lexer = Lexer::new(text);
    let mut tokens = Vec::new();
    loop {
        match lexer.next_token() {
            Ok(t) => {
                let end = t.is_eof();
                tokens.push(t);
                if end {
                    return (tokens, None);
                }
            }
            Err(e) => return (tokens, Some(e)),
        }
    }
}

#[test]
fn lexer_gives_each_kind_of_token() {
    let (tokens, error) = all_tokens(
        "; This is a comment\n   ; with more comment\n #banana #fred:tob{ r='2' \"\"\"Stuff \"\"  and more \"\"\"",
    );
    assert!(error.is_none());
    let types: Vec<TokenType> = tokens.iter().map(|t| t.token_type()).collect();
    assert_eq!(
        types,
        vec![
            TokenType::Comment,
            TokenType::TagOpen,
            TokenType::TagOpen,
            TokenType::Attribute,
            TokenType::Characters,
            TokenType::Characters,
            TokenType::Characters,
            TokenType::Characters,
            TokenType::EndOfFile,
        ]
    );
    assert_eq!(
        tokens[0].contents(),
        vec![" This is a comment".to_string(), " with more comment".to_string()]
    );
    assert_eq!(tokens[2].contents(), vec!["fred".to_string(), "tob".to_string()]);
    assert!(tokens[2].get_boxed());
    assert_eq!(
        tokens[3].contents(),
        vec!["".to_string(), "r".to_string(), "2".to_string()]
    );
    assert_eq!(tokens[5].contents(), vec!["Stuff ".to_string()]);
    assert_eq!(tokens[6].contents(), vec!["  and more ".to_string()]);
    assert_eq!(tokens[7].contents(), vec!["".to_string()]);
}

#[test]
fn tokens_come_in_the_order_of_the_text() {
    let text = "#a b='1'\n  ; c\n 'd' r#\"e\"# ##f} \u{e9}=2";
    let (tokens, error) = all_tokens(text);
    assert!(error.is_none());
    let mut last = 0;
    for t in &tokens {
        let span = t.get_span();
        assert!(last <= span.start().byte_ofs());
        assert!(span.start().byte_ofs() <= span.end().byte_ofs());
        assert!(span.end().byte_ofs() <= text.len());
        last = span.start().byte_ofs();
    }
    assert_eq!(tokens.last().unwrap().get_span().start().byte_ofs(), text.len());
}

#[test]
fn end_of_the_text_is_given_again() {
    let mut lexer = Lexer::new("  ");
    let first = lexer.next_token().unwrap();
    let second = lexer.next_token().unwrap();
    assert!(first.is_eof());
    assert_eq!(first, second);
    assert_eq!(first.get_span().start().byte_ofs(), 2);
    assert_eq!(lexer.position().byte_ofs(), 2);
}

#[test]
fn source_ends_after_the_end_of_the_text() {
    let mut lexer = Lexer::new("#a");
    assert_eq!(
        lexer.fetch_token().unwrap().unwrap().token_type(),
        TokenType::TagOpen
    );
    assert!(lexer.fetch_token().unwrap().unwrap().is_eof());
    assert!(lexer.fetch_token().is_none());
    let mut failing = Lexer::new("!");
    assert!(failing.fetch_token().unwrap().is_err());
    assert!(failing.fetch_token().is_none());
}

#[test]
fn tag_at_the_end_of_the_text() {
    let l = StringReader::new("##tag");
    let (posn, token) = parse_tag(&l, Position::default()).unwrap().unwrap();
    assert_eq!(token.token_type(), TokenType::TagOpen);
    assert_eq!(token.get_depth(), 2);
    assert!(l.peek_at(&posn).is_none());

    let l = StringReader::new("##tag!");
    let start = Position::zero();
    let end = Position {
        byte: 5,
        line: 1,
        column: 6,
        index: 5,
    };
    assert_eq!(
        parse_tag(&l, start),
        Err(HmlError::ExpectedWhitespaceAfterTag {
            span: Span::new(start, end)
        })
    );
    let l = StringReader::new("##tag{x");
    assert!(matches!(
        parse_tag(&l, start),
        Err(HmlError::ExpectedWhitespaceAfterTag { .. })
    ));
    let l = StringReader::new("##tag}\n");
    let (_, token) = parse_tag(&l, start).unwrap().unwrap();
    assert_eq!(token.token_type(), TokenType::TagClose);
}

#[test]
fn each_error_of_the_lexer() {
    let (_, e) = all_tokens("## x");
    assert!(matches!(e, Some(HmlError::ExpectedTagName { span }) if span.end.byte == 2));
    let (_, e) = all_tokens("#a:");
    assert!(matches!(e, Some(HmlError::ExpectedTagName { .. })));
    let (_, e) = all_tokens("'abc\ndef'");
    assert!(matches!(
        e,
        Some(HmlError::UnexpectedNewlineInQuotedString { span }) if span.end.byte == 4
    ));
    let (_, e) = all_tokens("#'abc");
    assert!(matches!(e, Some(HmlError::UnexpectedEOF { span }) if span.end.byte == 5));
    let (_, e) = all_tokens("##'abc'#");
    assert!(matches!(e, Some(HmlError::UnexpectedEOF { .. })));
    let (_, e) = all_tokens("a b");
    assert!(matches!(e, Some(HmlError::ExpectedEquals { ch: ' ', .. })));
    let (_, e) = all_tokens("a");
    assert!(matches!(e, Some(HmlError::UnexpectedEOF { .. })));
    let (_, e) = all_tokens("a=");
    assert!(matches!(e, Some(HmlError::UnexpectedEOF { .. })));
    let (_, e) = all_tokens("  ?");
    assert!(matches!(
        e,
        Some(HmlError::UnexpectedCharacter { ch: '?', span }) if span.start.byte == 2 && span.end.byte == 2
    ));
    let (_, e) = all_tokens("r#x");
    assert!(matches!(e, Some(HmlError::UnexpectedCharacter { ch: 'x', .. })));
    let (_, e) = all_tokens("r##");
    assert!(matches!(e, Some(HmlError::UnexpectedEOF { .. })));
}

#[test]
fn attribute_values() {
    let (tokens, e) = all_tokens("a=1 b:c=\"two words\" r=x d= e='#'");
    assert!(e.is_none());
    let values: Vec<Vec<String>> = tokens.iter().map(|t| t.contents()).collect();
    let expect = |p: &str, n: &str, v: &str| vec![p.to_string(), n.to_string(), v.to_string()];
    assert_eq!(values[0], expect("", "a", "1"));
    assert_eq!(values[1], expect("b", "c", "two words"));
    assert_eq!(values[2], expect("", "r", "x"));
    assert_eq!(values[3], expect("", "d", ""));
    assert_eq!(values[4], expect("", "e", "#"));
    let l = StringReader::new("a='1");
    assert!(matches!(
        parse_attribute(&l, Position::zero()),
        Err(HmlError::UnexpectedEOF { .. })
    ));
    let l = StringReader::new(" a=1");
    assert_eq!(parse_attribute(&l, Position::zero()), Ok(None));
}

#[test]
fn quoted_string_with_hashes() {
    let l = StringReader::new("##'a'#b'##c");
    let start = Position::zero();
    let after = Position {
        byte: 3,
        line: 1,
        column: 4,
        index: 3,
    };
    let (end, text) = parse_quoted_string(&l, start, after, '\'', 2).unwrap();
    assert_eq!(text, "a'#b");
    assert_eq!(end.byte_ofs(), 10);
    assert_eq!(l.peek_at(&end), Some('c'));
    let (end, text) = parse_quoted_string(&l, start, after, '\'', 0).unwrap();
    assert_eq!(text, "a");
    assert_eq!(end.byte_ofs(), 5);
    let (end, text) = parse_quoted_string(&l, start, after, '\'', 1).unwrap();
    assert_eq!(text, "a");
    assert_eq!(end.byte_ofs(), 6);
}

#[test]
fn order_of_the_kinds() {
    assert_eq!(
        parse_fns(),
        vec![
            ParseFn::Whitespace,
            ParseFn::Comment,
            ParseFn::CharacterString,
            ParseFn::Tag,
            ParseFn::Attribute,
        ]
    );
    let parsers = parse_fns();
    let l = StringReader::new("r#'x'# #r r=1");
    let mut posn = Position::zero();
    let mut types = Vec::new();
    while let Some((next, token)) = parse(&l, posn, &parsers).unwrap() {
        types.push(token.token_type());
        posn = next;
    }
    assert_eq!(
        types,
        vec![
            TokenType::RawCharacters,
            TokenType::Whitespace,
            TokenType::TagOpen,
            TokenType::Whitespace,
            TokenType::Attribute,
        ]
    );
}

#[test]
fn positions_count_bytes_lines_and_columns() {
    let p = Position::zero();
    assert_eq!((p.byte_ofs(), p.line(), p.column()), (0, 1, 1));
    assert_eq!(Position::none(), Position::zero());
    let p = p.advance_by_char('a');
    assert_eq!((p.byte_ofs(), p.line(), p.column()), (1, 1, 2));
    let p = p.advance_by_char('\u{e9}');
    assert_eq!((p.byte_ofs(), p.line(), p.column()), (3, 1, 3));
    let p = p.advance_by_char('\n');
    assert_eq!((p.byte_ofs(), p.line(), p.column()), (4, 2, 1));
    let p = p.advance_by_char('\u{1f600}');
    assert_eq!((p.byte_ofs(), p.line(), p.column()), (8, 2, 2));
    let p = p.advance_by_char('\u{2013}');
    assert_eq!((p.byte_ofs(), p.line(), p.column()), (11, 2, 3));
    let p = p.advance_by_char('\r');
    assert_eq!((p.byte_ofs(), p.line(), p.column()), (12, 2, 4));

    let l = StringReader::new("a\u{e9}\n\u{1f600}#x");
    assert_eq!(l.len(), 6);
    let mut q = Position::zero();
    for _ in 0..4 {
        q = l.consumed_char(q);
    }
    assert_eq!((q.byte_ofs(), q.line(), q.column()), (8, 2, 2));
    assert_eq!(l.peek_at(&q), Some('#'));
    assert_eq!(l.get_text(Position::zero(), q), "a\u{e9}\n\u{1f600}");
    let s = Span::between(&Position::zero(), &q);
    assert_eq!(*s.start(), Position::zero());
    assert_eq!(*s.end(), q);
    assert_eq!(Span::new_at(&q).end_at(&q), Span::new(q, q));
}

#[test]
fn character_classes() {
    assert!(is_newline('\n') && !is_newline('\r'));
    assert!(is_hash('#') && !is_hash('a'));
    assert!(is_quote('\'') && is_quote('"') && !is_quote('`'));
    for c in ['_', 'A', 'z', '\u{c0}', '\u{37f}', '\u{200c}', '\u{3001}', '\u{10000}', '\u{effff}'] {
        assert!(is_name_start(c), "{:?}", c);
        assert!(is_name(c), "{:?}", c);
    }
    for c in ['-', '.', '0', '9', '\u{b7}', '\u{300}', '\u{36f}', '\u{203f}'] {
        assert!(!is_name_start(c), "{:?}", c);
        assert!(is_name(c), "{:?}", c);
    }
    for c in [':', ' ', '#', '\u{d7}', '\u{f7}', '\u{37e}', '\u{2000}', '\u{f0000}'] {
        assert!(!is_name_start(c), "{:?}", c);
        assert!(!is_name(c), "{:?}", c);
    }
    for c in [' ', '\t', '\n', '\r', '\u{b}', '\u{c}', '\u{85}', '\u{a0}', '\u{2003}', '\u{3000}'] {
        assert!(is_whitespace(c), "{:?}", c);
        assert_eq!(is_whitespace(c), c.is_whitespace());
    }
    for c in ['a', '\u{200b}', '\u{feff}', '#'] {
        assert!(!is_whitespace(c), "{:?}", c);
    }
}

#[test]
fn tokens_as_text() {
    let (tokens, error) = all_tokens("; c\n#p:a{ ##b x:y=1 'z' r'w' #p:a}");
    assert!(error.is_none());
    let shown: Vec<String> = tokens.iter().map(|t| t.to_string()).collect();
    assert_eq!(
        shown,
        vec![
            "[1:1->2:1]; ...",
            "[2:1->2:6]#<1>p:a{",
            "[2:7->2:10]#<2>:b",
            "[2:11->2:16]x:y=1",
            "[2:17->2:20]chars ...",
            "[2:21->2:25]rawchars ...",
            "[2:26->2:31]#<1>p:a}",
            "[2:31->2:31]<eof>",
        ]
    );
    let l = StringReader::new("  x");
    let (_, ws) = parse(&l, Position::zero(), &parse_fns()).unwrap().unwrap();
    assert_eq!(ws.to_string(), "[1:1->1:3]whitespace");
    assert_eq!(Position::zero().to_string(), "1:1");
    assert_eq!(ws.get_span().to_string(), "1:1->1:3");
}

#[test]
fn lexer_of_any_text() {
    let mut lexer = Lexer::of_str("#a").unwrap();
    assert_eq!(lexer.next_token().unwrap().token_type(), TokenType::TagOpen);
    let reader = StringReader::of_str("a\u{e9}").unwrap();
    assert_eq!(reader.len(), 2);
}

#[test]
fn quoted_strings_are_read_back() {
    let cases: Vec<(&str, char, usize)> = vec![
        ("plain", '\'', 0),
        ("", '"', 0),
        ("with \" inside", '\'', 0),
        ("a'b", '\'', 1),
        ("a'#b\nc", '\'', 2),
        ("\"#\"##\"", '"', 3),
        ("line1\nline2 \u{1f600} \\n", '"', 1),
        ("ends with quote'", '\'', 1),
    ];
    for (payload, quote, n) in cases {
        for raw in [false, true] {
            let hashes = "#".repeat(n);
            let written = format!(
                "{}{}{}{}{}{}",
                if raw { "r" } else { "" },
                hashes,
                quote,
                payload,
                quote,
                hashes
            );
            let (tokens, error) = all_tokens(&written);
            assert!(error.is_none(), "{:?}", written);
            assert_eq!(tokens.len(), 2, "{:?}", written);
            let expected = if raw {
                TokenType::RawCharacters
            } else {
                TokenType::Characters
            };
            assert_eq!(tokens[0].token_type(), expected);
            assert_eq!(tokens[0].contents(), vec![payload.to_string()]);
            assert_eq!(tokens[0].get_span().start().byte_ofs(), 0);
            assert_eq!(tokens[0].get_span().end().byte_ofs(), written.len());
        }
    }
}

#[test]
fn comment_lines_are_read_in_order() {
    let lines = vec!["", " first", "second ; with semicolon", "\t\u{e9}"];
    let mut written = String::new();
    for l in &lines {
        written.push(';');
        written.push_str(l);
        written.push('\n');
    }
    let (tokens, error) = all_tokens(&written);
    assert!(error.is_none());
    assert_eq!(tokens.len(), 2);
    assert_eq!(tokens[0].token_type(), TokenType::Comment);
    let expected: Vec<String> = lines.iter().map(|l| l.to_string()).collect();
    assert_eq!(tokens[0].contents(), expected);
    assert_eq!(tokens[0].get_span().end().byte_ofs(), written.len());
    assert_eq!(tokens[0].get_span().end().line(), 5);
}
