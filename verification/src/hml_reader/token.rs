//! The tokens of an HML text.
use vstd::prelude::*;
use vstd::string::*;
use crate::reader::span::Span;
use crate::text::{decimal_digits, push_decimal, texts};

verus! {

/// The kind of a token.
#[derive(Debug, Copy, Clone, PartialEq, Eq, Structural)]
pub enum TokenType {
    /// One or more lines that each start with `;`
    Comment,
    /// Hashes and a name, with `{` after it if the element is boxed
    TagOpen,
    /// Hashes, a name and `}`
    TagClose,
    /// A name, `=` and a value
    Attribute,
    /// A quoted string in which no escape is to be interpreted
    RawCharacters,
    /// A quoted string whose escapes are to be interpreted
    Characters,
    /// The end of the text
    EndOfFile,
    /// White space between other tokens
    Whitespace,
}

/// A token of an HML text, with the span of the text that it was read from.
#[derive(Debug, Clone, PartialEq, Eq)]
pub enum Token {
    /// The lines of a block of comment lines, each without its `;` and its
    /// newline
    Comment { span: Span, lines: Vec<String> },
    /// The opening tag of an element; `depth` is the number of hashes
    TagOpen { span: Span, prefix: String, name: String, depth: usize, boxed: bool },
    /// The closing tag of a boxed element; `depth` is the number of hashes
    TagClose { span: Span, prefix: String, name: String, depth: usize },
    /// An attribute of the element whose tag precedes it
    Attribute { span: Span, prefix: String, name: String, value: String },
    /// The text between the quotes of a quoted string
    Characters { span: Span, data: String },
    /// The text between the quotes of a raw quoted string
    RawCharacters { span: Span, data: String },
    /// White space
    Whitespace { span: Span },
    /// The end of the text
    EndOfFile { span: Span },
}

/// What a token holds, its strings taken as sequences of characters.
pub ghost enum TokenView {
    Comment { span: Span, lines: Seq<Seq<char>> },
    TagOpen { span: Span, prefix: Seq<char>, name: Seq<char>, depth: usize, boxed: bool },
    TagClose { span: Span, prefix: Seq<char>, name: Seq<char>, depth: usize },
    Attribute { span: Span, prefix: Seq<char>, name: Seq<char>, value: Seq<char> },
    Characters { span: Span, data: Seq<char> },
    RawCharacters { span: Span, data: Seq<char> },
    Whitespace { span: Span },
    EndOfFile { span: Span },
}

impl TokenView {
    /// The span of the token.
    pub open spec fn span(self) -> Span {
        match self {
            TokenView::Comment { span, .. } => span,
            TokenView::TagOpen { span, .. } => span,
            TokenView::TagClose { span, .. } => span,
            TokenView::Attribute { span, .. } => span,
            TokenView::Characters { span, .. } => span,
            TokenView::RawCharacters { span, .. } => span,
            TokenView::Whitespace { span } => span,
            TokenView::EndOfFile { span } => span,
        }
    }

    /// The kind of the token.
    pub open spec fn token_type(self) -> TokenType {
        match self {
            TokenView::Comment { .. } => TokenType::Comment,
            TokenView::TagOpen { .. } => TokenType::TagOpen,
            TokenView::TagClose { .. } => TokenType::TagClose,
            TokenView::Attribute { .. } => TokenType::Attribute,
            TokenView::Characters { .. } => TokenType::Characters,
            TokenView::RawCharacters { .. } => TokenType::RawCharacters,
            TokenView::Whitespace { .. } => TokenType::Whitespace,
            TokenView::EndOfFile { .. } => TokenType::EndOfFile,
        }
    }

    /// The number of hashes of a tag; 0 for any other token.
    pub open spec fn depth(self) -> usize {
        match self {
            TokenView::TagOpen { depth, .. } => depth,
            TokenView::TagClose { depth, .. } => depth,
            _ => 0,
        }
    }

    /// Whether the token is the opening tag of a boxed element.
    pub open spec fn boxed(self) -> bool {
        match self {
            TokenView::TagOpen { boxed, .. } => boxed,
            _ => false,
        }
    }

    /// The strings of the token, in order: the lines of a comment; the
    /// prefix and the name of a tag; the prefix, the name and the value of
    /// an attribute; the text of a quoted string.
    pub open spec fn contents(self) -> Seq<Seq<char>> {
        match self {
            TokenView::Comment { lines, .. } => lines,
            TokenView::TagOpen { prefix, name, .. } => seq![prefix, name],
            TokenView::TagClose { prefix, name, .. } => seq![prefix, name],
            TokenView::Attribute { prefix, name, value, .. } => seq![prefix, name, value],
            TokenView::Characters { data, .. } => seq![data],
            TokenView::RawCharacters { data, .. } => seq![data],
            TokenView::Whitespace { .. } => seq![],
            TokenView::EndOfFile { .. } => seq![],
        }
    }
}

impl TokenView {
    /// The token as text for people: its span in square brackets, and
    /// then what it is. A tag is shown as `#`, its depth in angle brackets,
    /// its prefix, `:` and its name, and the brace that it ends in; an
    /// attribute as its prefix, `:`, its name, `=` and its value.
    pub open spec fn to_text(self) -> Seq<char> {
        let head = seq!['['] + self.span().spec_to_string() + seq![']'];
        match self {
            TokenView::Comment { .. } => head + "; ..."@,
            TokenView::TagOpen { prefix, name, depth, boxed, .. } => head + seq!['#', '<']
                + decimal_digits(depth as nat) + seq!['>'] + prefix + seq![':'] + name + (if boxed {
                seq!['{']
            } else {
                Seq::empty()
            }),
            TokenView::TagClose { prefix, name, depth, .. } => head + seq!['#', '<']
                + decimal_digits(depth as nat) + seq!['>'] + prefix + seq![':'] + name + seq!['}'],
            TokenView::Attribute { prefix, name, value, .. } => head + prefix + seq![':'] + name
                + seq!['='] + value,
            TokenView::Characters { .. } => head + "chars ..."@,
            TokenView::RawCharacters { .. } => head + "rawchars ..."@,
            TokenView::Whitespace { .. } => head + "whitespace"@,
            TokenView::EndOfFile { .. } => head + "<eof>"@,
        }
    }
}

impl View for Token {
    type V = TokenView;

    open spec fn view(&self) -> TokenView {
        match *self {
            Token::Comment { span, lines } => TokenView::Comment { span, lines: texts(lines@) },
            Token::TagOpen { span, prefix, name, depth, boxed } => TokenView::TagOpen {
                span,
                prefix: prefix@,
                name: name@,
                depth,
                boxed,
            },
            Token::TagClose { span, prefix, name, depth } => TokenView::TagClose {
                span,
                prefix: prefix@,
                name: name@,
                depth,
            },
            Token::Attribute { span, prefix, name, value } => TokenView::Attribute {
                span,
                prefix: prefix@,
                name: name@,
                value: value@,
            },
            Token::Characters { span, data } => TokenView::Characters { span, data: data@ },
            Token::RawCharacters { span, data } => TokenView::RawCharacters { span, data: data@ },
            Token::Whitespace { span } => TokenView::Whitespace { span },
            Token::EndOfFile { span } => TokenView::EndOfFile { span },
        }
    }
}

impl Token {
    /// The opening tag of a boxed element.
    pub fn open_boxed(span: Span, ns: String, name: String, depth: usize) -> (t: Token)
        ensures
            t@ == (TokenView::TagOpen { span, prefix: ns@, name: name@, depth, boxed: true }),
    {
        Token::TagOpen { span, prefix: ns, name, depth, boxed: true }
    }

    /// The opening tag of an element that is not boxed.
    pub fn open(span: Span, ns: String, name: String, depth: usize) -> (t: Token)
        ensures
            t@ == (TokenView::TagOpen { span, prefix: ns@, name: name@, depth, boxed: false }),
    {
        Token::TagOpen { span, prefix: ns, name, depth, boxed: false }
    }

    /// The closing tag of a boxed element.
    pub fn close(span: Span, ns: String, name: String, depth: usize) -> (t: Token)
        ensures
            t@ == (TokenView::TagClose { span, prefix: ns@, name: name@, depth }),
    {
        Token::TagClose { span, prefix: ns, name, depth }
    }

    /// An attribute.
    pub fn attribute(span: Span, ns: String, name: String, value: String) -> (t: Token)
        ensures
            t@ == (TokenView::Attribute { span, prefix: ns@, name: name@, value: value@ }),
    {
        Token::Attribute { span, prefix: ns, name, value }
    }

    /// A comment of the lines `strings`.
    pub fn comment(span: Span, strings: Vec<String>) -> (t: Token)
        ensures
            t@ == (TokenView::Comment { span, lines: texts(strings@) }),
    {
        Token::Comment { span, lines: strings }
    }

    /// White space.
    pub fn whitespace(span: Span) -> (t: Token)
        ensures
            t@ == (TokenView::Whitespace { span }),
    {
        Token::Whitespace { span }
    }

    /// The text of a raw quoted string.
    pub fn raw_characters(span: Span, s: String) -> (t: Token)
        ensures
            t@ == (TokenView::RawCharacters { span, data: s@ }),
    {
        Token::RawCharacters { span, data: s }
    }

    /// The text of a quoted string.
    pub fn characters(span: Span, s: String) -> (t: Token)
        ensures
            t@ == (TokenView::Characters { span, data: s@ }),
    {
        Token::Characters { span, data: s }
    }

    /// The end of the text.
    pub fn eof(span: Span) -> (t: Token)
        ensures
            t@ == (TokenView::EndOfFile { span }),
    {
        Token::EndOfFile { span }
    }

    /// The token as text for people.
    pub fn to_string(&self) -> (s: String)
        ensures
            s@ == self@.to_text(),
    {
        let mut s = String::new();
        s.push('[');
        self.get_span().push_to(&mut s);
        s.push(']');
        let ghost head = seq!['['] + self@.span().spec_to_string() + seq![']'];
        assert(s@ =~= head);
        match self {
            Token::Comment { .. } => {
                s.append("; ...");
            },
            Token::TagOpen { prefix, name, depth, boxed, .. } => {
                s.push('#');
                s.push('<');
                push_decimal(&mut s, *depth);
                s.push('>');
                s.append(prefix.as_str());
                s.push(':');
                s.append(name.as_str());
                if *boxed {
                    s.push('{');
                }
                assert(s@ =~= self@.to_text());
            },
            Token::TagClose { prefix, name, depth, .. } => {
                s.push('#');
                s.push('<');
                push_decimal(&mut s, *depth);
                s.push('>');
                s.append(prefix.as_str());
                s.push(':');
                s.append(name.as_str());
                s.push('}');
                assert(s@ =~= self@.to_text());
            },
            Token::Attribute { prefix, name, value, .. } => {
                s.append(prefix.as_str());
                s.push(':');
                s.append(name.as_str());
                s.push('=');
                s.append(value.as_str());
                assert(s@ =~= self@.to_text());
            },
            Token::Characters { .. } => {
                s.append("chars ...");
            },
            Token::RawCharacters { .. } => {
                s.append("rawchars ...");
            },
            Token::Whitespace { .. } => {
                s.append("whitespace");
            },
            Token::EndOfFile { .. } => {
                s.append("<eof>");
            },
        }
        s
    }

    /// The kind of the token.
    pub fn token_type(&self) -> (tt: TokenType)
        ensures
            tt == self@.token_type(),
    {
        match self {
            Token::Comment { .. } => TokenType::Comment,
            Token::TagOpen { .. } => TokenType::TagOpen,
            Token::TagClose { .. } => TokenType::TagClose,
            Token::Attribute { .. } => TokenType::Attribute,
            Token::Characters { .. } => TokenType::Characters,
            Token::RawCharacters { .. } => TokenType::RawCharacters,
            Token::Whitespace { .. } => TokenType::Whitespace,
            Token::EndOfFile { .. } => TokenType::EndOfFile,
        }
    }

    /// The span of the text that the token was read from.
    pub fn get_span(&self) -> (s: &Span)
        ensures
            *s == self@.span(),
    {
        match self {
            Token::Comment { span, .. } => span,
            Token::TagOpen { span, .. } => span,
            Token::TagClose { span, .. } => span,
            Token::Attribute { span, .. } => span,
            Token::Characters { span, .. } => span,
            Token::RawCharacters { span, .. } => span,
            Token::Whitespace { span } => span,
            Token::EndOfFile { span } => span,
        }
    }

    /// The number of hashes of a tag; 0 for any other token.
    pub fn get_depth(&self) -> (d: usize)
        ensures
            d == self@.depth(),
    {
        match self {
            Token::TagOpen { depth, .. } => *depth,
            Token::TagClose { depth, .. } => *depth,
            _ => 0,
        }
    }

    /// Whether the token is the opening tag of a boxed element.
    pub fn get_boxed(&self) -> (b: bool)
        ensures
            b == self@.boxed(),
    {
        match self {
            Token::TagOpen { boxed, .. } => *boxed,
            _ => false,
        }
    }

    /// The strings of the token, in order.
    pub fn contents(&self) -> (c: Vec<String>)
        ensures
            texts(c@) == self@.contents(),
    {
        let mut c: Vec<String> = Vec::new();
        match self {
            Token::Comment { lines, .. } => {
                let mut i: usize = 0;
                while i < lines.len()
                    invariant
                        i <= lines.len(),
                        c.len() == i,
                        forall|j: int| 0 <= j < i ==> c@[j]@ == lines@[j]@,
                    decreases lines.len() - i,
                {
                    c.push(lines[i].clone());
                    i += 1;
                }
                assert(texts(c@) =~= texts(lines@));
            },
            Token::TagOpen { prefix, name, .. } => {
                c.push(prefix.clone());
                c.push(name.clone());
                assert(texts(c@) =~= seq![prefix@, name@]);
            },
            Token::TagClose { prefix, name, .. } => {
                c.push(prefix.clone());
                c.push(name.clone());
                assert(texts(c@) =~= seq![prefix@, name@]);
            },
            Token::Attribute { prefix, name, value, .. } => {
                c.push(prefix.clone());
                c.push(name.clone());
                c.push(value.clone());
                assert(texts(c@) =~= seq![prefix@, name@, value@]);
            },
            Token::Characters { data, .. } => {
                c.push(data.clone());
                assert(texts(c@) =~= seq![data@]);
            },
            Token::RawCharacters { data, .. } => {
                c.push(data.clone());
                assert(texts(c@) =~= seq![data@]);
            },
            Token::Whitespace { .. } => {
                assert(texts(c@) =~= seq![]);
            },
            Token::EndOfFile { .. } => {
                assert(texts(c@) =~= seq![]);
            },
        }
        c
    }

    /// The strings of the token, in order, taken out of it: the token is
    /// spent.
    pub fn take_contents(self) -> (c: Vec<String>)
        ensures
            texts(c@) == self@.contents(),
    {
        self.contents()
    }

    /// Whether the token is the end of the text.
    pub fn is_eof(&self) -> (b: bool)
        ensures
            b == (self@.token_type() == TokenType::EndOfFile),
    {
        match self {
            Token::EndOfFile { .. } => true,
            _ => false,
        }
    }

    /// Whether the token is an attribute.
    pub fn is_attribute(&self) -> (b: bool)
        ensures
            b == (self@.token_type() == TokenType::Attribute),
    {
        match self {
            Token::Attribute { .. } => true,
            _ => false,
        }
    }

    /// Whether the token is white space.
    pub fn is_whitespace(&self) -> (b: bool)
        ensures
            b == (self@.token_type() == TokenType::Whitespace),
    {
        match self {
            Token::Whitespace { .. } => true,
            _ => false,
        }
    }
}

} // verus!
