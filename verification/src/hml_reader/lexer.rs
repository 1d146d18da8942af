//! The lexer of HML: functions that read one token of a kind at a position
//! of a text, and a lexer that reads a text token by token.
use vstd::prelude::*;
use vstd::string::StringSliceAdditionalSpecFns;
use crate::error::{HmlError, HmlErrorView, HmlResult};
use crate::hml_reader::token::{Token, TokenView};
use crate::hml_reader::utils::{
    is_hash, is_name, is_name_start, is_newline, is_quote, is_whitespace, spec_is_hash,
    spec_is_name, spec_is_name_start, spec_is_newline, spec_is_quote, spec_is_whitespace,
};
use crate::reader::position::Position;
use crate::reader::span::Span;
use crate::reader::string::{StringReader, locates, position_at, span_at};
use crate::text::texts;

verus! {

/// A class of characters, a run of which the lexer reads in one step.
#[derive(Debug, Clone, Copy, PartialEq, Eq, Structural)]
pub enum CharClass {
    /// White space
    Whitespace,
    /// White space other than a newline
    Blank,
    /// The hash
    Hash,
    /// The characters that may continue a name
    Name,
    /// Any character but a newline
    NotNewline,
    /// Any character but white space
    NotWhitespace,
}

impl CharClass {
    /// Whether `ch` is of the class.
    pub open spec fn holds(self, ch: char) -> bool {
        match self {
            CharClass::Whitespace => spec_is_whitespace(ch),
            CharClass::Blank => spec_is_whitespace(ch) && !spec_is_newline(ch),
            CharClass::Hash => spec_is_hash(ch),
            CharClass::Name => spec_is_name(ch),
            CharClass::NotNewline => !spec_is_newline(ch),
            CharClass::NotWhitespace => !spec_is_whitespace(ch),
        }
    }

    /// Whether `ch` is of the class.
    pub fn test(&self, ch: char) -> (r: bool)
        ensures
            r == self.holds(ch),
    {
        match self {
            CharClass::Whitespace => is_whitespace(ch),
            CharClass::Blank => is_whitespace(ch) && !is_newline(ch),
            CharClass::Hash => is_hash(ch),
            CharClass::Name => is_name(ch),
            CharClass::NotNewline => !is_newline(ch),
            CharClass::NotWhitespace => !is_whitespace(ch),
        }
    }
}

/// The end of the longest run of characters of `class` that starts at
/// character `i` of `text`: the index of the first character at or after
/// `i` that is not of the class, or the length of the text.
pub open spec fn scan_while(text: Seq<char>, i: int, class: CharClass) -> int
    decreases text.len() - i,
{
    if 0 <= i < text.len() && class.holds(text[i]) {
        scan_while(text, i + 1, class)
    } else {
        i
    }
}

/// A run ends at or after its start and within the text, holds only
/// characters of its class, and is followed by none.
pub proof fn lemma_scan_while(text: Seq<char>, i: int, class: CharClass)
    requires
        0 <= i <= text.len(),
    ensures
        i <= scan_while(text, i, class) <= text.len(),
        forall|k: int| i <= k < scan_while(text, i, class) ==> class.holds(#[trigger] text[k]),
        scan_while(text, i, class) < text.len() ==> !class.holds(
            text[scan_while(text, i, class)],
        ),
    decreases text.len() - i,
{
    if i < text.len() && class.holds(text[i]) {
        lemma_scan_while(text, i + 1, class);
    }
}

/// The position at the end of the longest run of characters of `class`
/// that starts at `posn`.
pub fn scan(reader: &StringReader, posn: Position, class: CharClass) -> (end: Position)
    requires
        reader.has(posn),
    ensures
        reader.has(end),
        end.index == scan_while(reader@, posn.index as int, class),
{
    let mut p = posn;
    loop
        invariant
            reader.has(posn),
            reader.has(p),
            posn.index <= p.index,
            scan_while(reader@, posn.index as int, class) == scan_while(
                reader@,
                p.index as int,
                class,
            ),
        decreases reader@.len() - p.index,
    {
        match reader.peek_at(&p) {
            Some(ch) => {
                if !class.test(ch) {
                    return p;
                }
                p = reader.consumed_char(p);
            },
            None => {
                return p;
            },
        }
    }
}

/// The end of the name that starts at character `i` of `text`, or `i`
/// where none starts: a name is a character that may start a name and the
/// longest run of characters that may continue one.
pub open spec fn name_end(text: Seq<char>, i: int) -> int {
    if 0 <= i < text.len() && spec_is_name_start(text[i]) {
        scan_while(text, i + 1, CharClass::Name)
    } else {
        i
    }
}

/// A name with its prefix, and the index of the character after it.
pub ghost struct NsName {
    pub end: int,
    pub prefix: Seq<char>,
    pub name: Seq<char>,
}

/// The name, with a prefix or without, that starts at character `i` of
/// `text`: a name, and where `:` follows it, a second name after that; the
/// first is then the prefix. Without a prefix the prefix is empty. There
/// is none where no name starts at `i`, or none after the `:`.
pub open spec fn namespace_name_at(text: Seq<char>, i: int) -> Option<NsName> {
    let e1 = name_end(text, i);
    if e1 == i {
        None
    } else if e1 < text.len() && text[e1] == ':' {
        let e2 = name_end(text, e1 + 1);
        if e2 == e1 + 1 {
            None
        } else {
            Some(NsName { end: e2, prefix: text.subrange(i, e1), name: text.subrange(e1 + 1, e2) })
        }
    } else {
        Some(NsName { end: e1, prefix: Seq::empty(), name: text.subrange(i, e1) })
    }
}

/// Reads the name that starts at `posn`: its end and its text, or `None`
/// where no name starts there.
pub fn parse_name(reader: &StringReader, posn: Position) -> (r: Option<(Position, String)>)
    requires
        reader.has(posn),
    ensures
        match r {
            Some((end, s)) => {
                &&& reader.has(end)
                &&& end.index == name_end(reader@, posn.index as int)
                &&& end.index > posn.index
                &&& s@ == reader@.subrange(posn.index as int, end.index as int)
            },
            None => name_end(reader@, posn.index as int) == posn.index,
        },
{
    match reader.peek_at(&posn) {
        Some(ch) => {
            if !is_name_start(ch) {
                return None;
            }
            let next = reader.consumed_char(posn);
            let end = scan(reader, next, CharClass::Name);
            proof {
                lemma_scan_while(reader@, next.index as int, CharClass::Name);
            }
            let s = reader.get_text(posn, end);
            Some((end, s))
        },
        None => None,
    }
}

/// Reads the name, with a prefix or without, that starts at `posn`: its
/// end, the prefix and the name, or `None` where there is none.
pub fn parse_namespace_name(reader: &StringReader, posn: Position) -> (r: Option<
    (Position, String, String),
>)
    requires
        reader.has(posn),
    ensures
        match r {
            Some((end, prefix, name)) => {
                &&& reader.has(end)
                &&& end.index > posn.index
                &&& namespace_name_at(reader@, posn.index as int) == Some(
                    NsName { end: end.index as int, prefix: prefix@, name: name@ },
                )
            },
            None => namespace_name_at(reader@, posn.index as int) is None,
        },
{
    let (end_name, name) = match parse_name(reader, posn) {
        Some(x) => x,
        None => {
            return None;
        },
    };
    match reader.peek_at(&end_name) {
        Some(':') => {
            let after = reader.consumed_char(end_name);
            match parse_name(reader, after) {
                Some((end2, name2)) => Some((end2, name, name2)),
                None => None,
            }
        },
        _ => Some((end_name, String::new(), name)),
    }
}

/// What reading a token of one kind at a position of a text gives.
pub ghost enum Lexed {
    /// No token of the kind starts at the position
    NoMatch,
    /// A token, and the index of the character after it
    Token { end: int, token: TokenView },
    /// The text is in error
    Failed(HmlError),
}

/// Whether the result `r` of reading at a position of `text` is `l`.
pub open spec fn lexed_as(text: Seq<char>, r: HmlResult<Option<(Position, Token)>>, l: Lexed) -> bool {
    match l {
        Lexed::NoMatch => r == Ok::<Option<(Position, Token)>, HmlError>(None),
        Lexed::Failed(e) => r == Err::<Option<(Position, Token)>, HmlError>(e),
        Lexed::Token { end, token } => r matches Ok(Some((p, t))) && t@ == token && locates(text, p)
            && p.index == end,
    }
}

/// The white space that starts at character `i` of `text`: the longest run
/// of white space, where it is not empty.
pub open spec fn whitespace_at(text: Seq<char>, i: int) -> Lexed {
    let end = scan_while(text, i, CharClass::Whitespace);
    if end == i {
        Lexed::NoMatch
    } else {
        Lexed::Token { end, token: TokenView::Whitespace { span: span_at(text, i, end) } }
    }
}

/// Reads the white space that starts at `posn`.
pub fn parse_whitespace(reader: &StringReader, posn: Position) -> (r: HmlResult<
    Option<(Position, Token)>,
>)
    requires
        reader.has(posn),
    ensures
        lexed_as(reader@, r, whitespace_at(reader@, posn.index as int)),
{
    let end = scan(reader, posn, CharClass::Whitespace);
    proof {
        reader.lemma_has(posn);
        reader.lemma_has(end);
    }
    if end.index == posn.index {
        Ok(None)
    } else {
        Ok(Some((end, Token::whitespace(Span::new(posn, end)))))
    }
}

/// The tag that starts at character `i` of `text`.
///
/// A tag is a run of hashes, whose number is its depth, and a name with a
/// prefix or without. `{` after the name makes it the opening tag of a
/// boxed element, `}` a closing tag; both belong to the tag. Hashes that
/// no name follows are in error, and so is a tag that is followed by
/// anything but white space or the end of the text.
pub open spec fn tag_at(text: Seq<char>, i: int) -> Lexed {
    let h = scan_while(text, i, CharClass::Hash);
    if h == i {
        Lexed::NoMatch
    } else {
        match namespace_name_at(text, h) {
            None => Lexed::Failed(HmlError::ExpectedTagName { span: span_at(text, i, h) }),
            Some(n) => {
                let depth = (h - i) as usize;
                let brace = n.end < text.len() && (text[n.end] == '{' || text[n.end] == '}');
                let end = if brace {
                    n.end + 1
                } else {
                    n.end
                };
                let span = span_at(text, i, end);
                if end < text.len() && !spec_is_whitespace(text[end]) {
                    Lexed::Failed(HmlError::ExpectedWhitespaceAfterTag { span })
                } else if brace && text[n.end] == '}' {
                    Lexed::Token {
                        end,
                        token: TokenView::TagClose { span, prefix: n.prefix, name: n.name, depth },
                    }
                } else {
                    Lexed::Token {
                        end,
                        token: TokenView::TagOpen {
                            span,
                            prefix: n.prefix,
                            name: n.name,
                            depth,
                            boxed: brace,
                        },
                    }
                }
            },
        }
    }
}

/// Reads the tag that starts at `posn`.
pub fn parse_tag(reader: &StringReader, posn: Position) -> (r: HmlResult<Option<(Position, Token)>>)
    requires
        reader.has(posn),
    ensures
        lexed_as(reader@, r, tag_at(reader@, posn.index as int)),
{
    let hash_end = scan(reader, posn, CharClass::Hash);
    proof {
        reader.lemma_has(posn);
        reader.lemma_has(hash_end);
        lemma_scan_while(reader@, posn.index as int, CharClass::Hash);
    }
    if hash_end.index == posn.index {
        return Ok(None);
    }
    let hash_count: usize = hash_end.index - posn.index;
    let (end_name, ns, name) = match parse_namespace_name(reader, hash_end) {
        Some(x) => x,
        None => {
            return Err(HmlError::ExpectedTagName { span: Span::new(posn, hash_end) });
        },
    };
    let (end_posn, result) = match reader.peek_at(&end_name) {
        Some('{') => {
            let end_posn = reader.consumed_char(end_name);
            (end_posn, Token::open_boxed(Span::new(posn, end_posn), ns, name, hash_count))
        },
        Some('}') => {
            let end_posn = reader.consumed_char(end_name);
            (end_posn, Token::close(Span::new(posn, end_posn), ns, name, hash_count))
        },
        _ => (end_name, Token::open(Span::new(posn, end_name), ns, name, hash_count)),
    };
    proof {
        reader.lemma_has(end_posn);
    }
    match reader.peek_at(&end_posn) {
        Some(ch) => {
            if !is_whitespace(ch) {
                return Err(HmlError::ExpectedWhitespaceAfterTag { span: Span::new(posn, end_posn) });
            }
        },
        None => {},
    }
    Ok(Some((end_posn, result)))
}

/// Whether the quoted string that `q` opened, with `n` hashes before it,
/// closes at character `k` of `text`: the character is `q`, and `n` hashes
/// follow it.
pub open spec fn closes_at(text: Seq<char>, k: int, q: char, n: int) -> bool {
    &&& 0 <= k < text.len()
    &&& text[k] == q
    &&& k + 1 + n <= text.len()
    &&& forall|j: int| k + 1 <= j < k + 1 + n ==> spec_is_hash(#[trigger] text[j])
}

/// Where reading the text of a quoted string stops, from character `k` on:
/// at the first character at which the string closes; with no hashes, at a
/// newline that comes before that; else at the end of the text.
pub open spec fn quote_scan(text: Seq<char>, k: int, q: char, n: int) -> int
    decreases text.len() - k,
{
    if k < 0 || k >= text.len() {
        k
    } else if closes_at(text, k, q, n) || (n == 0 && spec_is_newline(text[k])) {
        k
    } else {
        quote_scan(text, k + 1, q, n)
    }
}

/// The text of a quoted string, and the index of the character after its
/// closing quote and hashes; or the error in it.
pub ghost enum Quoted {
    Text { end: int, data: Seq<char> },
    Failed(HmlError),
}

/// The quoted string whose text starts at character `s` of `text`, after
/// the quote `q` that `n` hashes precede; the token that it belongs to
/// starts at character `from`.
///
/// The text runs up to the first `q` that `n` hashes follow, and is taken
/// as it stands: a `q` with fewer hashes after it belongs to the text, and
/// no escape is interpreted. With no hashes a newline in the text is in
/// error. A string that the text ends in is in error too.
pub open spec fn quoted_at(text: Seq<char>, from: int, s: int, q: char, n: int) -> Quoted {
    let k = quote_scan(text, s, q, n);
    if k >= text.len() {
        Quoted::Failed(HmlError::UnexpectedEOF { span: span_at(text, from, text.len() as int) })
    } else if closes_at(text, k, q, n) {
        Quoted::Text { end: k + 1 + n, data: text.subrange(s, k) }
    } else {
        Quoted::Failed(HmlError::UnexpectedNewlineInQuotedString { span: span_at(text, from, k) })
    }
}

/// Reads a quoted string from `posn`, the position after its opening quote
/// `quote_ch`, which `hash_count` hashes precede; `from` is where the token
/// starts. Gives the position after the closing quote and its hashes, and
/// the text between the quotes.
pub fn parse_quoted_string(
    reader: &StringReader,
    from: Position,
    posn: Position,
    quote_ch: char,
    hash_count: usize,
) -> (r: HmlResult<(Position, String)>)
    requires
        reader.has(from),
        reader.has(posn),
        from.index <= posn.index,
    ensures
        match quoted_at(
            reader@,
            from.index as int,
            posn.index as int,
            quote_ch,
            hash_count as int,
        ) {
            Quoted::Text { end, data } => r matches Ok((p, s)) && reader.has(p) && p.index == end
                && s@ == data,
            Quoted::Failed(e) => r == Err::<(Position, String), HmlError>(e),
        },
{
    let ghost text = reader@;
    let ghost n = hash_count as int;
    let mut p = posn;
    proof {
        reader.lemma_has(from);
    }
    loop
        invariant
            text == reader@,
            n == hash_count as int,
            reader.has(from),
            from == position_at(text, from.index as int),
            reader.has(posn),
            reader.has(p),
            posn.index <= p.index,
            quote_scan(text, posn.index as int, quote_ch, n) == quote_scan(
                text,
                p.index as int,
                quote_ch,
                n,
            ),
        decreases text.len() - p.index,
    {
        proof {
            reader.lemma_has(p);
        }
        let ch = match reader.peek_at(&p) {
            Some(ch) => ch,
            None => {
                return Err(HmlError::UnexpectedEOF { span: Span::new(from, p) });
            },
        };
        if ch == quote_ch {
            let after = reader.consumed_char(p);
            let mut hp = after;
            let mut i: usize = 0;
            let mut stopped = false;
            while i < hash_count && !stopped
                invariant
                    text == reader@,
                    reader.has(hp),
                    i <= hash_count,
                    hp.index == after.index + i,
                    forall|j: int| after.index <= j < hp.index ==> spec_is_hash(#[trigger] text[j]),
                    stopped ==> i < hash_count && (hp.index >= text.len() || !spec_is_hash(
                        text[hp.index as int],
                    )),
                decreases hash_count - i + (if stopped { 0int } else { 1int }),
            {
                match reader.peek_at(&hp) {
                    Some(c) => {
                        if is_hash(c) {
                            hp = reader.consumed_char(hp);
                            i += 1;
                        } else {
                            stopped = true;
                        }
                    },
                    None => {
                        stopped = true;
                    },
                }
            }
            if i == hash_count {
                assert(closes_at(text, p.index as int, quote_ch, n));
                let s = reader.get_text(posn, p);
                return Ok((hp, s));
            }
            assert(!closes_at(text, p.index as int, quote_ch, n)) by {
                if closes_at(text, p.index as int, quote_ch, n) {
                    assert(spec_is_hash(text[hp.index as int]));
                }
            }
            p = after;
        } else if hash_count == 0 && is_newline(ch) {
            assert(!closes_at(text, p.index as int, quote_ch, n));
            return Err(HmlError::UnexpectedNewlineInQuotedString { span: Span::new(from, p) });
        } else {
            assert(!closes_at(text, p.index as int, quote_ch, n));
            p = reader.consumed_char(p);
        }
    }
}

/// The quoted string, raw or not, that starts at character `i` of `text`.
///
/// It starts with `r` if it is raw, then has any number of hashes, then a
/// quote. An `r` that neither a hash nor a quote follows starts no string,
/// and hashes without an `r` before them start none unless a quote follows
/// them. After `r` and hashes a quote must follow.
pub open spec fn character_string_at(text: Seq<char>, i: int) -> Lexed {
    if i < 0 || i >= text.len() {
        Lexed::NoMatch
    } else {
        let raw = text[i] == 'r';
        let j = if raw {
            i + 1
        } else {
            i
        };
        if raw && (j >= text.len() || !(spec_is_hash(text[j]) || spec_is_quote(text[j]))) {
            Lexed::NoMatch
        } else {
            let h = scan_while(text, j, CharClass::Hash);
            if h >= text.len() {
                if raw {
                    Lexed::Failed(HmlError::UnexpectedEOF { span: span_at(text, i, h) })
                } else {
                    Lexed::NoMatch
                }
            } else if !spec_is_quote(text[h]) {
                if raw {
                    Lexed::Failed(
                        HmlError::UnexpectedCharacter { span: span_at(text, i, h), ch: text[h] },
                    )
                } else {
                    Lexed::NoMatch
                }
            } else {
                match quoted_at(text, i, h + 1, text[h], h - j) {
                    Quoted::Failed(e) => Lexed::Failed(e),
                    Quoted::Text { end, data } => {
                        let span = span_at(text, i, end);
                        if raw {
                            Lexed::Token { end, token: TokenView::RawCharacters { span, data } }
                        } else {
                            Lexed::Token { end, token: TokenView::Characters { span, data } }
                        }
                    },
                }
            }
        }
    }
}

/// Reads the quoted string, raw or not, that starts at `posn`.
pub fn parse_character_string(reader: &StringReader, posn: Position) -> (r: HmlResult<
    Option<(Position, Token)>,
>)
    requires
        reader.has(posn),
    ensures
        lexed_as(reader@, r, character_string_at(reader@, posn.index as int)),
{
    proof {
        reader.lemma_has(posn);
    }
    let ch = match reader.peek_at(&posn) {
        Some(ch) => ch,
        None => {
            return Ok(None);
        },
    };
    let raw = ch == 'r';
    let start = if raw {
        let after_r = reader.consumed_char(posn);
        match reader.peek_at(&after_r) {
            Some(c) => {
                if !is_hash(c) && !is_quote(c) {
                    return Ok(None);
                }
            },
            None => {
                return Ok(None);
            },
        }
        after_r
    } else {
        posn
    };
    let hash_end = scan(reader, start, CharClass::Hash);
    proof {
        reader.lemma_has(hash_end);
        lemma_scan_while(reader@, start.index as int, CharClass::Hash);
    }
    let hash_count: usize = hash_end.index - start.index;
    let quote_ch = match reader.peek_at(&hash_end) {
        Some(c) => c,
        None => {
            if raw {
                return Err(HmlError::UnexpectedEOF { span: Span::new(posn, hash_end) });
            }
            return Ok(None);
        },
    };
    if !is_quote(quote_ch) {
        if raw {
            return Err(
                HmlError::UnexpectedCharacter { span: Span::new(posn, hash_end), ch: quote_ch },
            );
        }
        return Ok(None);
    }
    let after_quote = reader.consumed_char(hash_end);
    match parse_quoted_string(reader, posn, after_quote, quote_ch, hash_count) {
        Err(e) => Err(e),
        Ok((end, s)) => {
            proof {
                reader.lemma_has(end);
            }
            let span = Span::new(posn, end);
            if raw {
                Ok(Some((end, Token::raw_characters(span, s))))
            } else {
                Ok(Some((end, Token::characters(span, s))))
            }
        },
    }
}

/// The attribute that starts at character `i` of `text`.
///
/// An attribute is a name with a prefix or without, then `=`, then a
/// value. The value is a quoted string without hashes, or else the longest
/// run of characters that are not white space.
pub open spec fn attribute_at(text: Seq<char>, i: int) -> Lexed {
    match namespace_name_at(text, i) {
        None => Lexed::NoMatch,
        Some(n) => {
            if n.end >= text.len() {
                Lexed::Failed(HmlError::UnexpectedEOF { span: span_at(text, i, n.end) })
            } else if text[n.end] != '=' {
                Lexed::Failed(
                    HmlError::ExpectedEquals { span: span_at(text, i, n.end), ch: text[n.end] },
                )
            } else {
                let v = n.end + 1;
                if v >= text.len() {
                    Lexed::Failed(HmlError::UnexpectedEOF { span: span_at(text, i, v) })
                } else if spec_is_quote(text[v]) {
                    match quoted_at(text, i, v + 1, text[v], 0) {
                        Quoted::Failed(e) => Lexed::Failed(e),
                        Quoted::Text { end, data } => Lexed::Token {
                            end,
                            token: TokenView::Attribute {
                                span: span_at(text, i, end),
                                prefix: n.prefix,
                                name: n.name,
                                value: data,
                            },
                        },
                    }
                } else {
                    let end = scan_while(text, v, CharClass::NotWhitespace);
                    Lexed::Token {
                        end,
                        token: TokenView::Attribute {
                            span: span_at(text, i, end),
                            prefix: n.prefix,
                            name: n.name,
                            value: text.subrange(v, end),
                        },
                    }
                }
            }
        },
    }
}

/// Reads the value of an attribute at `posn`: its end and its text. `from`
/// is where the attribute starts.
pub fn parse_string(reader: &StringReader, from: Position, posn: Position) -> (r: HmlResult<
    (Position, String),
>)
    requires
        reader.has(from),
        reader.has(posn),
        from.index <= posn.index,
    ensures
        ({
            let text = reader@;
            let v = posn.index as int;
            if v >= text.len() {
                r == Err::<(Position, String), HmlError>(
                    HmlError::UnexpectedEOF { span: span_at(text, from.index as int, v) },
                )
            } else if spec_is_quote(text[v]) {
                match quoted_at(text, from.index as int, v + 1, text[v], 0) {
                    Quoted::Text { end, data } => r matches Ok((p, s)) && reader.has(p) && p.index
                        == end && s@ == data,
                    Quoted::Failed(e) => r == Err::<(Position, String), HmlError>(e),
                }
            } else {
                r matches Ok((p, s)) && reader.has(p) && p.index == scan_while(
                    text,
                    v,
                    CharClass::NotWhitespace,
                ) && s@ == text.subrange(v, p.index as int)
            }
        }),
{
    proof {
        reader.lemma_has(from);
        reader.lemma_has(posn);
    }
    let ch = match reader.peek_at(&posn) {
        Some(ch) => ch,
        None => {
            return Err(HmlError::UnexpectedEOF { span: Span::new(from, posn) });
        },
    };
    if is_quote(ch) {
        let after = reader.consumed_char(posn);
        parse_quoted_string(reader, from, after, ch, 0)
    } else {
        let end = scan(reader, posn, CharClass::NotWhitespace);
        proof {
            lemma_scan_while(reader@, posn.index as int, CharClass::NotWhitespace);
        }
        let s = reader.get_text(posn, end);
        Ok((end, s))
    }
}

/// Reads the attribute that starts at `posn`.
pub fn parse_attribute(reader: &StringReader, posn: Position) -> (r: HmlResult<
    Option<(Position, Token)>,
>)
    requires
        reader.has(posn),
    ensures
        lexed_as(reader@, r, attribute_at(reader@, posn.index as int)),
{
    proof {
        reader.lemma_has(posn);
    }
    let (end_name, ns, name) = match parse_namespace_name(reader, posn) {
        Some(x) => x,
        None => {
            return Ok(None);
        },
    };
    proof {
        reader.lemma_has(end_name);
    }
    let ch = match reader.peek_at(&end_name) {
        Some(ch) => ch,
        None => {
            return Err(HmlError::UnexpectedEOF { span: Span::new(posn, end_name) });
        },
    };
    if ch != '=' {
        return Err(HmlError::ExpectedEquals { span: Span::new(posn, end_name), ch });
    }
    let after = reader.consumed_char(end_name);
    match parse_string(reader, posn, after) {
        Err(e) => Err(e),
        Ok((end, value)) => {
            proof {
                reader.lemma_has(end);
            }
            Ok(Some((end, Token::attribute(Span::new(posn, end), ns, name, value))))
        },
    }
}

/// The lines of a block of comment lines, and the index of the character
/// after the block.
pub ghost struct CommentBlock {
    pub lines: Seq<Seq<char>>,
    pub end: int,
}

/// The block of comment lines that starts at character `i` of `text`.
///
/// A comment line is any white space other than a newline, then `;`, then
/// the text of the line, which runs up to the next newline or the end of
/// the text. The newline belongs to the line, not to its text. The block
/// goes on for as long as another comment line follows.
pub open spec fn comment_block(text: Seq<char>, i: int) -> CommentBlock
    decreases text.len() - i,
    via comment_block_decreases
{
    let s = scan_while(text, i, CharClass::Blank);
    if 0 <= i && s < text.len() && text[s] == ';' {
        let e = scan_while(text, s + 1, CharClass::NotNewline);
        let next = if e < text.len() {
            e + 1
        } else {
            e
        };
        let rest = comment_block(text, next);
        CommentBlock { lines: seq![text.subrange(s + 1, e)] + rest.lines, end: rest.end }
    } else {
        CommentBlock { lines: Seq::empty(), end: i }
    }
}

#[via_fn]
proof fn comment_block_decreases(text: Seq<char>, i: int) {
    let s = scan_while(text, i, CharClass::Blank);
    if 0 <= i && s < text.len() && text[s] == ';' {
        lemma_scan_while(text, i, CharClass::Blank);
        lemma_scan_while(text, s + 1, CharClass::NotNewline);
    }
}

/// The comment that starts at character `i` of `text`: the block of
/// comment lines there, where it has a line.
pub open spec fn comment_at(text: Seq<char>, i: int) -> Lexed {
    let b = comment_block(text, i);
    if b.lines.len() == 0 {
        Lexed::NoMatch
    } else {
        Lexed::Token {
            end: b.end,
            token: TokenView::Comment { span: span_at(text, i, b.end), lines: b.lines },
        }
    }
}

/// Reads the comment that starts at `posn`.
pub fn parse_comment(reader: &StringReader, posn: Position) -> (r: HmlResult<
    Option<(Position, Token)>,
>)
    requires
        reader.has(posn),
    ensures
        lexed_as(reader@, r, comment_at(reader@, posn.index as int)),
{
    let ghost text = reader@;
    let mut lines: Vec<String> = Vec::new();
    let mut p = posn;
    let mut more = true;
    proof {
        reader.lemma_has(posn);
        assert(texts(lines@) + comment_block(text, p.index as int).lines =~= comment_block(
            text,
            posn.index as int,
        ).lines);
    }
    while more
        invariant
            text == reader@,
            reader.has(posn),
            reader.has(p),
            posn.index <= p.index,
            comment_block(text, posn.index as int).lines == texts(lines@) + comment_block(
                text,
                p.index as int,
            ).lines,
            comment_block(text, posn.index as int).end == comment_block(text, p.index as int).end,
            !more ==> comment_block(text, p.index as int) == (CommentBlock {
                lines: Seq::empty(),
                end: p.index as int,
            }),
        decreases text.len() - p.index + (if more { 1int } else { 0int }),
    {
        let s = scan(reader, p, CharClass::Blank);
        proof {
            lemma_scan_while(text, p.index as int, CharClass::Blank);
        }
        match reader.peek_at(&s) {
            Some(';') => {
                let start = reader.consumed_char(s);
                let e = scan(reader, start, CharClass::NotNewline);
                proof {
                    lemma_scan_while(text, start.index as int, CharClass::NotNewline);
                }
                let line = reader.get_text(start, e);
                let ghost before = lines@;
                lines.push(line);
                let next = match reader.peek_at(&e) {
                    Some(_) => reader.consumed_char(e),
                    None => e,
                };
                proof {
                    let rest = comment_block(text, next.index as int);
                    assert(texts(lines@) =~= texts(before).push(line@));
                    assert(texts(lines@) + rest.lines =~= texts(before) + (seq![line@]
                        + rest.lines));
                }
                p = next;
            },
            _ => {
                more = false;
            },
        }
    }
    proof {
        reader.lemma_has(p);
        assert(texts(lines@) + Seq::<Seq<char>>::empty() =~= texts(lines@));
    }
    if lines.len() == 0 {
        Ok(None)
    } else {
        Ok(Some((p, Token::comment(Span::new(posn, p), lines))))
    }
}

/// The kinds of token that can be read at a position.
#[derive(Debug, Clone, Copy, PartialEq, Eq, Structural)]
pub enum ParseFn {
    /// White space
    Whitespace,
    /// A comment
    Comment,
    /// A quoted string, raw or not
    CharacterString,
    /// A tag
    Tag,
    /// An attribute
    Attribute,
}

impl ParseFn {
    /// What reading a token of this kind at character `i` of `text` gives.
    pub open spec fn at(self, text: Seq<char>, i: int) -> Lexed {
        match self {
            ParseFn::Whitespace => whitespace_at(text, i),
            ParseFn::Comment => comment_at(text, i),
            ParseFn::CharacterString => character_string_at(text, i),
            ParseFn::Tag => tag_at(text, i),
            ParseFn::Attribute => attribute_at(text, i),
        }
    }

    /// Reads a token of this kind at `posn`.
    pub fn call(&self, reader: &StringReader, posn: Position) -> (r: HmlResult<
        Option<(Position, Token)>,
    >)
        requires
            reader.has(posn),
        ensures
            lexed_as(reader@, r, self.at(reader@, posn.index as int)),
    {
        match self {
            ParseFn::Whitespace => parse_whitespace(reader, posn),
            ParseFn::Comment => parse_comment(reader, posn),
            ParseFn::CharacterString => parse_character_string(reader, posn),
            ParseFn::Tag => parse_tag(reader, posn),
            ParseFn::Attribute => parse_attribute(reader, posn),
        }
    }
}

/// The kinds of token of HML, in the order in which they are tried.
///
/// A quoted string is tried before a tag, since hashes may start either,
/// and before an attribute, since `r` may start either.
pub open spec fn spec_parse_fns() -> Seq<ParseFn> {
    seq![
        ParseFn::Whitespace,
        ParseFn::Comment,
        ParseFn::CharacterString,
        ParseFn::Tag,
        ParseFn::Attribute,
    ]
}

/// The kinds of token of HML, in the order in which they are tried.
pub fn parse_fns() -> (v: Vec<ParseFn>)
    ensures
        v@ == spec_parse_fns(),
{
    let mut v: Vec<ParseFn> = Vec::new();
    v.push(ParseFn::Whitespace);
    v.push(ParseFn::Comment);
    v.push(ParseFn::CharacterString);
    v.push(ParseFn::Tag);
    v.push(ParseFn::Attribute);
    assert(v@ =~= spec_parse_fns());
    v
}

/// What reading a token at character `i` of `text` gives, the kinds
/// `parsers[k..]` being tried in order: the result of the first kind that
/// gives a token or an error. Where none does, the character at `i` is
/// unexpected.
pub open spec fn first_match(text: Seq<char>, i: int, parsers: Seq<ParseFn>, k: int) -> Lexed
    decreases parsers.len() - k,
{
    if k < 0 || k >= parsers.len() {
        Lexed::Failed(HmlError::UnexpectedCharacter { span: span_at(text, i, i), ch: text[i] })
    } else if parsers[k].at(text, i) is NoMatch {
        first_match(text, i, parsers, k + 1)
    } else {
        parsers[k].at(text, i)
    }
}

/// What reading a token at character `i` of `text` gives, the kinds
/// `parsers` being tried in order; nothing at the end of the text.
pub open spec fn parse_at(text: Seq<char>, i: int, parsers: Seq<ParseFn>) -> Lexed {
    if i >= text.len() {
        Lexed::NoMatch
    } else {
        first_match(text, i, parsers, 0)
    }
}

/// Reads the token at `posn`, trying the kinds `parsers` in order. At the
/// end of the text there is none.
pub fn parse(reader: &StringReader, posn: Position, parsers: &Vec<ParseFn>) -> (r: HmlResult<
    Option<(Position, Token)>,
>)
    requires
        reader.has(posn),
    ensures
        lexed_as(reader@, r, parse_at(reader@, posn.index as int, parsers@)),
{
    proof {
        reader.lemma_has(posn);
    }
    let ch = match reader.peek_at(&posn) {
        Some(ch) => ch,
        None => {
            return Ok(None);
        },
    };
    let mut k: usize = 0;
    while k < parsers.len()
        invariant
            reader.has(posn),
            posn.index < reader@.len(),
            k <= parsers.len(),
            first_match(reader@, posn.index as int, parsers@, 0) == first_match(
                reader@,
                posn.index as int,
                parsers@,
                k as int,
            ),
        decreases parsers.len() - k,
    {
        let result = parsers[k].call(reader, posn);
        match result {
            Ok(None) => {},
            _ => {
                return result;
            },
        }
        k += 1;
    }
    Err(HmlError::UnexpectedCharacter { span: Span::new_at(&posn), ch })
}

/// A name ends after its start and within the text.
pub proof fn lemma_namespace_name_bounds(text: Seq<char>, i: int)
    requires
        0 <= i <= text.len(),
    ensures
        namespace_name_at(text, i) matches Some(n) ==> i < n.end <= text.len(),
{
    if i < text.len() {
        lemma_scan_while(text, i + 1, CharClass::Name);
        let e1 = name_end(text, i);
        if e1 + 1 < text.len() {
            lemma_scan_while(text, e1 + 2, CharClass::Name);
        }
    }
}

/// Reading the text of a quoted string stops at or after its start and
/// within the text.
pub proof fn lemma_quote_scan_bounds(text: Seq<char>, k: int, q: char, n: int)
    requires
        0 <= k <= text.len(),
    ensures
        k <= quote_scan(text, k, q, n) <= text.len(),
    decreases text.len() - k,
{
    if k < text.len() && !(closes_at(text, k, q, n) || (n == 0 && spec_is_newline(text[k]))) {
        lemma_quote_scan_bounds(text, k + 1, q, n);
    }
}

/// A block of comment lines ends at or after its start and within the
/// text, and after its start where it has a line.
pub proof fn lemma_comment_block_bounds(text: Seq<char>, i: int)
    requires
        0 <= i <= text.len(),
    ensures
        i <= comment_block(text, i).end <= text.len(),
        comment_block(text, i).lines.len() > 0 ==> i < comment_block(text, i).end,
    decreases text.len() - i,
{
    let s = scan_while(text, i, CharClass::Blank);
    lemma_scan_while(text, i, CharClass::Blank);
    if s < text.len() && text[s] == ';' {
        let e = scan_while(text, s + 1, CharClass::NotNewline);
        lemma_scan_while(text, s + 1, CharClass::NotNewline);
        let next = if e < text.len() {
            e + 1
        } else {
            e
        };
        lemma_comment_block_bounds(text, next);
    }
}

/// A token of any kind that is read at character `i` of a text spans the
/// text from `i` to its end, which lies after `i` and within the text: no
/// token is empty, and none reaches beyond the text.
pub proof fn lemma_lexed_bounds(text: Seq<char>, i: int, kind: ParseFn)
    requires
        0 <= i <= text.len(),
    ensures
        kind.at(text, i) matches Lexed::Token { end, token } ==> i < end <= text.len()
            && token.span() == span_at(text, i, end),
{
    match kind {
        ParseFn::Whitespace => {
            lemma_scan_while(text, i, CharClass::Whitespace);
        },
        ParseFn::Comment => {
            lemma_comment_block_bounds(text, i);
        },
        ParseFn::CharacterString => {
            if i < text.len() {
                let j = if text[i] == 'r' {
                    i + 1
                } else {
                    i
                };
                lemma_scan_while(text, j, CharClass::Hash);
                let h = scan_while(text, j, CharClass::Hash);
                if h < text.len() {
                    lemma_quote_scan_bounds(text, h + 1, text[h], h - j);
                }
            }
        },
        ParseFn::Tag => {
            lemma_scan_while(text, i, CharClass::Hash);
            let h = scan_while(text, i, CharClass::Hash);
            lemma_namespace_name_bounds(text, h);
        },
        ParseFn::Attribute => {
            lemma_namespace_name_bounds(text, i);
            match namespace_name_at(text, i) {
                Some(n) => {
                    if n.end + 1 < text.len() {
                        lemma_quote_scan_bounds(text, n.end + 2, text[n.end + 1], 0);
                        lemma_scan_while(text, n.end + 1, CharClass::NotWhitespace);
                    }
                },
                None => {},
            }
        },
    }
}

/// A token that is read at character `i` of a text, several kinds being
/// tried, spans the text from `i` to its end, which lies after `i` and
/// within the text.
pub proof fn lemma_first_match_bounds(text: Seq<char>, i: int, parsers: Seq<ParseFn>, k: int)
    requires
        0 <= i <= text.len(),
        0 <= k,
    ensures
        first_match(text, i, parsers, k) matches Lexed::Token { end, token } ==> i < end
            <= text.len() && token.span() == span_at(text, i, end),
    decreases parsers.len() - k,
{
    if k < parsers.len() {
        lemma_lexed_bounds(text, i, parsers[k]);
        lemma_first_match_bounds(text, i, parsers, k + 1);
    }
}

/// The kinds of token that the lexer reads after it has skipped white
/// space, in the order in which they are tried.
pub open spec fn token_kinds() -> Seq<ParseFn> {
    seq![ParseFn::Comment, ParseFn::CharacterString, ParseFn::Tag, ParseFn::Attribute]
}

/// The token that the lexer reads from character `i` of `text`: white
/// space is skipped; at the end of the text the token is the end of the
/// text, with the empty span there; else it is the comment, quoted string,
/// tag or attribute that starts there, and a character that starts none of
/// them is in error.
pub open spec fn token_at(text: Seq<char>, i: int) -> Lexed {
    let w = scan_while(text, i, CharClass::Whitespace);
    if w >= text.len() {
        Lexed::Token { end: w, token: TokenView::EndOfFile { span: span_at(text, w, w) } }
    } else {
        first_match(text, w, token_kinds(), 0)
    }
}

/// The lexer always reads a token or finds an error; a token that is not
/// the end of the text starts at or after `i`, is not empty, and ends
/// within the text.
pub proof fn lemma_token_at(text: Seq<char>, i: int)
    requires
        0 <= i <= text.len(),
    ensures
        !(token_at(text, i) is NoMatch),
        token_at(text, i) matches Lexed::Token { end, token } ==> {
            &&& i <= end <= text.len()
            &&& token.span() == span_at(text, scan_while(text, i, CharClass::Whitespace), end)
            &&& i <= scan_while(text, i, CharClass::Whitespace) <= end
            &&& !(token is EndOfFile) ==> i < end
            &&& !(token is Whitespace)
        },
{
    lemma_scan_while(text, i, CharClass::Whitespace);
    let w = scan_while(text, i, CharClass::Whitespace);
    if w < text.len() {
        lemma_first_match_bounds(text, w, token_kinds(), 0);
        lemma_first_match_kinds(text, w, 0);
    }
}

/// What the lexer reads after white space is a comment, a quoted string, a
/// tag or an attribute, or an error.
pub proof fn lemma_first_match_kinds(text: Seq<char>, i: int, k: int)
    requires
        0 <= k,
    ensures
        !(first_match(text, i, token_kinds(), k) is NoMatch),
        first_match(text, i, token_kinds(), k) matches Lexed::Token { end, token } ==> !(token
            is Whitespace) && !(token is EndOfFile),
    decreases token_kinds().len() - k,
{
    if k < token_kinds().len() {
        lemma_first_match_kinds(text, i, k + 1);
    }
}

/// The results that a lexer gives one after another from character `i` of
/// `text` on: tokens up to and with the end of the text, or up to and with
/// the first error.
pub open spec fn stream_from(text: Seq<char>, i: int) -> Seq<Result<TokenView, HmlErrorView>>
    decreases text.len() - i,
    via stream_from_decreases
{
    if i < 0 || i > text.len() {
        Seq::empty()
    } else {
        match token_at(text, i) {
            Lexed::NoMatch => Seq::empty(),
            Lexed::Failed(e) => seq![Err(e@)],
            Lexed::Token { end, token } => if token is EndOfFile {
                seq![Ok(token)]
            } else {
                seq![Ok(token)] + stream_from(text, end)
            },
        }
    }
}

#[via_fn]
proof fn stream_from_decreases(text: Seq<char>, i: int) {
    if 0 <= i <= text.len() {
        lemma_token_at(text, i);
    }
}

/// Whether the tokens among `s` come in the order of the text: none
/// starts before one that was given earlier.
pub open spec fn starts_ordered(s: Seq<Result<TokenView, HmlErrorView>>) -> bool {
    forall|a: int, b: int|
        0 <= a < b < s.len() && (#[trigger] s[a]) is Ok && (#[trigger] s[b]) is Ok ==> s[a]->Ok_0.span().start.index
            <= s[b]->Ok_0.span().start.index
}

/// Whether each token among `s` has a span between the characters `i` and
/// `n` of the text, and does not end before it starts.
pub open spec fn spans_within(s: Seq<Result<TokenView, HmlErrorView>>, i: int, n: int) -> bool {
    forall|k: int|
        0 <= k < s.len() && (#[trigger] s[k]) is Ok ==> i <= s[k]->Ok_0.span().start.index
            <= s[k]->Ok_0.span().end.index <= n
}

/// The span of every token that a lexer gives lies within the text, after
/// what the lexer had read before, and the tokens come in the order of the
/// text: no token starts before one that was given earlier.
pub proof fn lemma_stream_ordered(text: Seq<char>, i: int)
    requires
        0 <= i <= text.len() <= usize::MAX,
    ensures
        spans_within(stream_from(text, i), i, text.len() as int),
        starts_ordered(stream_from(text, i)),
    decreases text.len() - i,
{
    lemma_token_at(text, i);
    let s = stream_from(text, i);
    match token_at(text, i) {
        Lexed::Token { end, token } => {
            if !(token is EndOfFile) {
                lemma_stream_ordered(text, end);
                let rest = stream_from(text, end);
                assert(s =~= seq![Ok(token)] + rest);
                assert forall|k: int| 0 <= k < s.len() && (#[trigger] s[k]) is Ok implies i
                    <= s[k]->Ok_0.span().start.index <= s[k]->Ok_0.span().end.index
                    <= text.len() by {
                    if k > 0 {
                        assert(s[k] == rest[k - 1]);
                    }
                }
                assert forall|a: int, b: int|
                    0 <= a < b < s.len() && (#[trigger] s[a]) is Ok && (#[trigger] s[b])
                        is Ok implies s[a]->Ok_0.span().start.index
                    <= s[b]->Ok_0.span().start.index by {
                    assert(s[b] == rest[b - 1]);
                    if a > 0 {
                        assert(s[a] == rest[a - 1]);
                    }
                }
            }
        },
        _ => {},
    }
}

/// The result of reading a token, taken by its view.
pub open spec fn token_result_view(r: HmlResult<Token>) -> Result<TokenView, HmlErrorView> {
    match r {
        Ok(t) => Ok(t@),
        Err(e) => Err(e@),
    }
}

/// Whether a source that had `before` to give, gave `r`, and has `after`
/// left: it gives its first result, or `None` once it has none.
pub open spec fn fetched(
    before: Seq<Result<TokenView, HmlErrorView>>,
    r: Option<HmlResult<Token>>,
    after: Seq<Result<TokenView, HmlErrorView>>,
) -> bool {
    if before.len() == 0 {
        r is None && after == before
    } else {
        r matches Some(x) && token_result_view(x) == before[0] && after == before.drop_first()
    }
}

/// A source of tokens for the parser.
pub trait TokenSource {
    /// The results that the source has yet to give, in order.
    spec fn upcoming(&self) -> Seq<Result<TokenView, HmlErrorView>>;

    /// The next token or error of the source; `None` once it has given
    /// all.
    fn fetch_token(&mut self) -> (r: Option<HmlResult<Token>>)
        ensures
            fetched(old(self).upcoming(), r, final(self).upcoming()),
    ;
}

/// A lexer of HML over a text in memory.
pub struct Lexer {
    reader: StringReader,
    posn: Position,
    done: bool,
}

impl Lexer {
    #[verifier::type_invariant]
    spec fn inv(&self) -> bool {
        self.reader.has(self.posn)
    }

    /// The text that the lexer reads.
    pub closed spec fn text(&self) -> Seq<char> {
        self.reader@
    }

    /// The number of characters that the lexer has read.
    pub closed spec fn index(&self) -> int {
        self.posn.index as int
    }

    /// Whether the lexer has given the end of the text, or an error, as
    /// a source of tokens.
    pub closed spec fn done(&self) -> bool {
        self.done
    }

    /// A lexer at the start of the text `text`.
    pub fn new(text: &str) -> (l: Lexer)
        requires
            text.spec_bytes().len() < usize::MAX,
        ensures
            l.text() == text@,
            l.index() == 0,
            !l.done(),
    {
        let reader = StringReader::new(text);
        proof {
            crate::reader::string::lemma_locates_zero(reader@);
        }
        Lexer { reader, posn: Position::zero(), done: false }
    }

    /// A lexer at the start of the text `text`, unless `text` is too long
    /// for its lines and columns to be counted: that is so where it takes as
    /// many bytes as the greatest number.
    pub fn of_str(text: &str) -> (r: Option<Lexer>)
        ensures
            match r {
                Some(l) => l.text() == text@ && l.index() == 0 && !l.done()
                    && text.spec_bytes().len() < usize::MAX,
                None => text.spec_bytes().len() >= usize::MAX,
            },
    {
        match StringReader::of_str(text) {
            Some(reader) => {
                proof {
                    crate::reader::string::lemma_locates_zero(reader@);
                }
                Some(Lexer { reader, posn: Position::zero(), done: false })
            },
            None => None,
        }
    }

    /// The position that the lexer has reached.
    pub fn position(&self) -> (p: Position)
        ensures
            locates(self.text(), p),
            p.index == self.index(),
    {
        proof {
            use_type_invariant(self);
        }
        self.posn
    }

    /// Reads the next token: skips white space, and reads the comment,
    /// quoted string, tag or attribute that follows. At the end of the text
    /// the token is the end of the text, at every call. Where the text is in
    /// error the lexer stays where it was.
    pub fn next_token(&mut self) -> (r: HmlResult<Token>)
        ensures
            final(self).text() == old(self).text(),
            final(self).done() == old(self).done(),
            0 <= old(self).index() <= old(self).text().len(),
            r matches Ok(t) ==> old(self).index() <= t@.span().start.index
                <= t@.span().end.index == final(self).index() <= old(self).text().len(),
            match token_at(old(self).text(), old(self).index()) {
                Lexed::Token { end, token } => r matches Ok(t) && t@ == token && final(self).index()
                    == end,
                Lexed::Failed(e) => r == Err::<Token, HmlError>(e) && final(self).index() == old(
                    self,
                ).index(),
                Lexed::NoMatch => false,
            },
    {
        proof {
            use_type_invariant(&*self);
            self.reader.lemma_has(self.posn);
            lemma_token_at(self.reader@, self.posn.index as int);
        }
        let start = scan(&self.reader, self.posn, CharClass::Whitespace);
        proof {
            self.reader.lemma_has(start);
        }
        let mut kinds: Vec<ParseFn> = Vec::new();
        kinds.push(ParseFn::Comment);
        kinds.push(ParseFn::CharacterString);
        kinds.push(ParseFn::Tag);
        kinds.push(ParseFn::Attribute);
        assert(kinds@ =~= token_kinds());
        match parse(&self.reader, start, &kinds) {
            Ok(Some((end, token))) => {
                self.posn = end;
                Ok(token)
            },
            Ok(None) => {
                self.posn = start;
                Ok(Token::eof(Span::new_at(&start)))
            },
            Err(e) => Err(e),
        }
    }
}

impl TokenSource for Lexer {
    /// The tokens from where the lexer is, up to and with the end of the
    /// text or the first error.
    closed spec fn upcoming(&self) -> Seq<Result<TokenView, HmlErrorView>> {
        if self.done {
            Seq::empty()
        } else {
            stream_from(self.reader@, self.posn.index as int)
        }
    }

    fn fetch_token(&mut self) -> (r: Option<HmlResult<Token>>) {
        if self.done {
            return None;
        }
        let ghost before = self.upcoming();
        let ghost text = self.reader@;
        let ghost i = self.posn.index as int;
        let r = self.next_token();
        proof {
            use_type_invariant(&*self);
            assert(before == stream_from(text, i));
        }
        match &r {
            Ok(t) => {
                if t.is_eof() {
                    self.done = true;
                    assert(before =~= seq![Ok(t@)]);
                    assert(self.upcoming() =~= before.drop_first());
                } else {
                    assert(before =~= seq![Ok(t@)] + stream_from(text, self.posn.index as int));
                    assert(self.upcoming() =~= before.drop_first());
                }
            },
            Err(e) => {
                self.done = true;
                assert(before =~= seq![Err(e@)]);
                assert(self.upcoming() =~= before.drop_first());
            },
        }
        Some(r)
    }
}

/// A run of characters of a class that is followed by none of the class
/// is the longest run.
pub proof fn lemma_scan_run(text: Seq<char>, i: int, e: int, class: CharClass)
    requires
        0 <= i <= e <= text.len(),
        forall|k: int| i <= k < e ==> class.holds(#[trigger] text[k]),
        e < text.len() ==> !class.holds(text[e]),
    ensures
        scan_while(text, i, class) == e,
    decreases e - i,
{
    if i < e {
        lemma_scan_run(text, i + 1, e, class);
    }
}

/// Reading the text of a quoted string stops at `b` where the string
/// closes at `b` and nothing before it ends the reading.
pub proof fn lemma_quote_scan_run(text: Seq<char>, a: int, b: int, q: char, n: int)
    requires
        0 <= a <= b < text.len(),
        forall|k: int|
            a <= k < b ==> !closes_at(text, k, q, n) && !(n == 0 && spec_is_newline(
                #[trigger] text[k],
            )),
        closes_at(text, b, q, n),
    ensures
        quote_scan(text, a, q, n) == b,
    decreases b - a,
{
    if a < b {
        assert(!closes_at(text, a, q, n) && !(n == 0 && spec_is_newline(text[a])));
        lemma_quote_scan_run(text, a + 1, b, q, n);
    }
}

/// `n` hashes.
pub open spec fn hashes(n: nat) -> Seq<char> {
    Seq::new(n, |i: int| '#')
}

/// The text `d` written as a quoted string: between two quotes `q`, with
/// `n` hashes before the first and after the second, and `r` before all
/// where the string is raw.
pub open spec fn quoted_text(d: Seq<char>, q: char, n: nat, raw: bool) -> Seq<char> {
    (if raw {
        seq!['r']
    } else {
        Seq::empty()
    }) + hashes(n) + seq![q] + d + seq![q] + hashes(n)
}

/// A text that is written as a quoted string is read back as it was.
///
/// Where no character of the text `d` closes the string, which is so where
/// `d` holds no quote `q` with `n` hashes after it, and where with no
/// hashes `d` holds no newline, reading `d` as written with `n` hashes gives
/// one token, raw or not as it was written, whose text is `d` and whose
/// span is the whole of what was written.
pub proof fn lemma_quoted_string_round_trip(d: Seq<char>, q: char, n: nat, raw: bool)
    requires
        spec_is_quote(q),
        ({
            let t = quoted_text(d, q, n, raw);
            let s = t.len() - d.len() - 1 - n;
            forall|k: int|
                s <= k < s + d.len() ==> !closes_at(t, k, q, n as int) && !(n == 0
                    && spec_is_newline(#[trigger] t[k]))
        }),
    ensures
        ({
            let t = quoted_text(d, q, n, raw);
            let span = span_at(t, 0, t.len() as int);
            character_string_at(t, 0) == (Lexed::Token {
                end: t.len() as int,
                token: if raw {
                    TokenView::RawCharacters { span, data: d }
                } else {
                    TokenView::Characters { span, data: d }
                },
            })
        }),
{
    let t = quoted_text(d, q, n, raw);
    let j: int = if raw {
        1
    } else {
        0
    };
    let h = j + n;
    let s = h + 1;
    let b = s + d.len();
    assert(t.len() == b + 1 + n);
    assert(forall|k: int| j <= k < h ==> t[k] == '#');
    assert(t[h] == q);
    assert(t[b] == q);
    assert(forall|k: int| b + 1 <= k < b + 1 + n ==> t[k] == '#');
    assert(t.subrange(s, b) =~= d);
    lemma_scan_run(t, j, h, CharClass::Hash);
    assert(closes_at(t, b, q, n as int));
    lemma_quote_scan_run(t, s, b, q, n as int);
}

/// The lines `lines` written as a block of comment lines: each after a
/// `;` and before a newline.
pub open spec fn comment_text(lines: Seq<Seq<char>>) -> Seq<char>
    decreases lines.len(),
{
    if lines.len() == 0 {
        Seq::empty()
    } else {
        seq![';'] + lines[0] + seq!['\n'] + comment_text(lines.drop_first())
    }
}

/// Where the rest of a text from character `i` on is lines written as a
/// block of comment lines, the block of comment lines at `i` holds those
/// lines and ends with the text.
pub proof fn lemma_comment_block_of_lines(text: Seq<char>, i: int, lines: Seq<Seq<char>>)
    requires
        0 <= i <= text.len(),
        text.subrange(i, text.len() as int) == comment_text(lines),
        forall|a: int, k: int|
            0 <= a < lines.len() && 0 <= k < lines[a].len() ==> !spec_is_newline(
                #[trigger] lines[a][k],
            ),
    ensures
        comment_block(text, i) == (CommentBlock { lines, end: text.len() as int }),
    decreases lines.len(),
{
    let rest_text = text.subrange(i, text.len() as int);
    if lines.len() == 0 {
        assert(rest_text.len() == 0);
        assert(comment_block(text, i).lines =~= lines);
    } else {
        let line = lines[0];
        let tail = comment_text(lines.drop_first());
        assert(rest_text =~= seq![';'] + line + seq!['\n'] + tail);
        assert(text[i] == rest_text[0]);
        assert(text[i] == ';');
        let e = i + 1 + line.len();
        assert forall|k: int| i + 1 <= k < e implies CharClass::NotNewline.holds(
            #[trigger] text[k],
        ) by {
            assert(text[k] == rest_text[k - i]);
            assert(rest_text[k - i] == line[k - i - 1]);
        }
        assert(text[e] == rest_text[e - i]);
        assert(text[e] == '\n');
        lemma_scan_run(text, i, i, CharClass::Blank);
        lemma_scan_run(text, i + 1, e, CharClass::NotNewline);
        assert(rest_text.len() == 2 + line.len() + tail.len());
        assert forall|k: int| 0 <= k < tail.len() implies text.subrange(
            e + 1,
            text.len() as int,
        )[k] == tail[k] by {
            assert(text[e + 1 + k] == rest_text[e + 1 + k - i]);
        }
        assert(text.subrange(e + 1, text.len() as int) =~= tail);
        assert forall|a: int, k: int|
            0 <= a < lines.drop_first().len() && 0 <= k < lines.drop_first()[a].len()
                implies !spec_is_newline(#[trigger] lines.drop_first()[a][k]) by {
            assert(lines.drop_first()[a] == lines[a + 1]);
        }
        lemma_comment_block_of_lines(text, e + 1, lines.drop_first());
        assert forall|k: int| 0 <= k < line.len() implies text.subrange(i + 1, e)[k] == line[k] by {
            assert(text[i + 1 + k] == rest_text[1 + k]);
        }
        assert(text.subrange(i + 1, e) =~= line);
        assert(seq![line] + lines.drop_first() =~= lines);
    }
}

/// A block of comment lines is read as one comment with those lines in
/// order.
///
/// Where none of the lines `lines`, of which there is at least one, holds
/// a newline, reading them as written gives one comment token, whose lines
/// are `lines` and whose span is the whole of what was written.
pub proof fn lemma_comment_lines(lines: Seq<Seq<char>>)
    requires
        lines.len() > 0,
        forall|a: int, k: int|
            0 <= a < lines.len() && 0 <= k < lines[a].len() ==> !spec_is_newline(
                #[trigger] lines[a][k],
            ),
    ensures
        ({
            let t = comment_text(lines);
            comment_at(t, 0) == (Lexed::Token {
                end: t.len() as int,
                token: TokenView::Comment { span: span_at(t, 0, t.len() as int), lines },
            })
        }),
{
    let t = comment_text(lines);
    assert(t.subrange(0, t.len() as int) =~= t);
    lemma_comment_block_of_lines(t, 0, lines);
}

/// The tokens `tokens` as the results of a source that never fails.
pub open spec fn token_results(tokens: Seq<Token>) -> Seq<Result<TokenView, HmlErrorView>> {
    tokens.map_values(|t: Token| Ok::<TokenView, HmlErrorView>(t@))
}

/// A source that gives the tokens of a list, in order.
pub struct TokenList {
    rest: Vec<Token>,
}

impl TokenList {
    /// A source that gives `tokens`, the first first.
    pub fn new(tokens: Vec<Token>) -> (l: TokenList)
        ensures
            l.upcoming() == token_results(tokens@),
    {
        let mut tokens = tokens;
        let ghost all = tokens@;
        let mut rest: Vec<Token> = Vec::new();
        while tokens.len() > 0
            invariant
                tokens.len() + rest.len() == all.len(),
                forall|i: int| 0 <= i < tokens.len() ==> tokens@[i] == all[i],
                forall|i: int| 0 <= i < rest.len() ==> rest@[i] == all[all.len() - 1 - i],
            decreases tokens.len(),
        {
            let t = tokens.pop().unwrap();
            rest.push(t);
        }
        let l = TokenList { rest };
        assert(l.upcoming() =~= token_results(all));
        l
    }
}

impl TokenSource for TokenList {
    /// The tokens of the list that have not been given.
    closed spec fn upcoming(&self) -> Seq<Result<TokenView, HmlErrorView>> {
        Seq::new(
            self.rest@.len(),
            |i: int| Ok::<TokenView, HmlErrorView>(self.rest@[self.rest@.len() - 1 - i]@),
        )
    }

    fn fetch_token(&mut self) -> (r: Option<HmlResult<Token>>) {
        let ghost before = self.upcoming();
        match self.rest.pop() {
            Some(t) => {
                assert(self.upcoming() =~= before.drop_first());
                assert(before[0] == Ok::<TokenView, HmlErrorView>(t@));
                Some(Ok(t))
            },
            None => None,
        }
    }
}

} // verus!
