//! The escapes of quoted strings: a backslash and what follows it stand
//! for a character.
use vstd::prelude::*;
use vstd::string::*;
use vstd::utf8::is_scalar;
use crate::text::{chars_of, decimal_digits, push_decimal, string_of, string_of_range};

verus! {

/// An error in an escape.
#[derive(Debug, Clone, PartialEq, Eq)]
pub enum Error {
    /// A backslash before a character that it has no meaning for
    BadEscape(String),
    /// Something else than a hexadecimal digit where one is needed
    BadHexDigit(String),
    /// A `\x` escape without two digits, or beyond 7f
    BadHexEscape(String),
    /// A `\u` escape of a bad form, or of no character
    BadUnicode(String),
    /// The end of the string within an escape
    EndOfStringInEscape(String),
}

/// What an error in an escape holds, its text taken as a sequence of
/// characters.
pub ghost enum ErrorView {
    BadEscape(Seq<char>),
    BadHexDigit(Seq<char>),
    BadHexEscape(Seq<char>),
    BadUnicode(Seq<char>),
    EndOfStringInEscape(Seq<char>),
}

impl View for Error {
    type V = ErrorView;

    open spec fn view(&self) -> ErrorView {
        match *self {
            Error::BadEscape(s) => ErrorView::BadEscape(s@),
            Error::BadHexDigit(s) => ErrorView::BadHexDigit(s@),
            Error::BadHexEscape(s) => ErrorView::BadHexEscape(s@),
            Error::BadUnicode(s) => ErrorView::BadUnicode(s@),
            Error::EndOfStringInEscape(s) => ErrorView::EndOfStringInEscape(s@),
        }
    }
}

/// The value of the hexadecimal digit `c`, if it is one.
pub open spec fn hex_value(c: char) -> Option<u32> {
    let v = c as u32;
    if 0x30 <= v <= 0x39 {
        Some((v - 0x30) as u32)
    } else if 0x61 <= v <= 0x66 {
        Some((v - 0x61 + 10) as u32)
    } else if 0x41 <= v <= 0x46 {
        Some((v - 0x41 + 10) as u32)
    } else {
        None
    }
}

/// The first byte of `c` in UTF-8.
pub open spec fn first_byte(c: char) -> nat {
    let v = c as u32;
    if v < 0x80 {
        v as nat
    } else if v < 0x800 {
        (0xC0 + v / 0x40) as nat
    } else if v < 0x10000 {
        (0xE0 + v / 0x1000) as nat
    } else {
        (0xF0 + v / 0x40000) as nat
    }
}

/// The message of a backslash before `c`, which it has no meaning for:
/// the first byte of `c` is named by its number.
pub open spec fn bad_escape_message(c: char) -> Seq<char> {
    "bad escape"@ + seq![' ', '\''] + decimal_digits(first_byte(c)) + seq!['\'']
}

/// The text `t` with `c` before it, or the error `t`.
pub open spec fn after_char(c: char, t: Result<Seq<char>, ErrorView>) -> Result<
    Seq<char>,
    ErrorView,
> {
    match t {
        Ok(rest) => Ok(seq![c] + rest),
        Err(e) => Err(e),
    }
}

/// The text `t` with `prefix` before it, or the error `t`.
pub open spec fn after_text(prefix: Seq<char>, t: Result<Seq<char>, ErrorView>) -> Result<
    Seq<char>,
    ErrorView,
> {
    match t {
        Ok(rest) => Ok(prefix + rest),
        Err(e) => Err(e),
    }
}

/// What `s[i..]` stands for once its escapes are resolved, or the first
/// error in it.
///
/// A character other than a backslash stands for itself. After a backslash,
/// `0`, `t`, `n` and `r` stand for the characters 0, 9, 10 and 13, and a
/// quote of either kind and a backslash for themselves; `x` and two
/// hexadecimal digits stand for the character of that number, which is 7f
/// at most; `u`, `{`, one to six hexadecimal digits and `}` stand for the
/// character of that number.
pub open spec fn unescaped_from(s: Seq<char>, i: int) -> Result<Seq<char>, ErrorView>
    decreases s.len() - i, 1int,
{
    if i < 0 || i >= s.len() {
        Ok(Seq::empty())
    } else if s[i] != '\\' {
        after_char(s[i], unescaped_from(s, i + 1))
    } else if i + 1 >= s.len() {
        Err(ErrorView::EndOfStringInEscape(s))
    } else {
        let j = i + 1;
        let c = s[j];
        if c == '0' {
            after_char('\0', unescaped_from(s, j + 1))
        } else if c == 't' {
            after_char('\t', unescaped_from(s, j + 1))
        } else if c == 'r' {
            after_char('\r', unescaped_from(s, j + 1))
        } else if c == 'n' {
            after_char('\n', unescaped_from(s, j + 1))
        } else if c == '\'' {
            after_char('\'', unescaped_from(s, j + 1))
        } else if c == '"' {
            after_char('"', unescaped_from(s, j + 1))
        } else if c == '\\' {
            after_char('\\', unescaped_from(s, j + 1))
        } else if c == 'x' {
            if j + 2 < s.len() {
                match (hex_value(s[j + 1]), hex_value(s[j + 2])) {
                    (Some(a), Some(b)) => if a * 16 + b > 0x7f {
                        Err(ErrorView::BadHexEscape("hex escape must be in range 0-0x7f"@))
                    } else {
                        after_char((a * 16 + b) as u8 as char, unescaped_from(s, j + 3))
                    },
                    _ => Err(ErrorView::BadHexDigit("hex escape requires hex digits"@)),
                }
            } else {
                Err(ErrorView::BadHexEscape("hex escape must be \\xXX"@))
            }
        } else if c == 'u' {
            if j + 2 < s.len() {
                if s[j + 1] != '{' {
                    Err(ErrorView::BadUnicode("\\u escape requires { to follow"@))
                } else {
                    match hex_value(s[j + 2]) {
                        Some(v) => unicode_from(s, j + 3, v, 1),
                        None => Err(
                            ErrorView::BadHexDigit("unicode escape requires hex digits"@),
                        ),
                    }
                }
            } else {
                Err(ErrorView::BadUnicode("malformed unicode escape"@))
            }
        } else {
            Err(ErrorView::BadEscape(bad_escape_message(c)))
        }
    }
}

/// What `s[k..]` stands for within a `\u{` escape of which `n` digits of
/// the value `value` have been read, followed by the rest of the string.
pub open spec fn unicode_from(s: Seq<char>, k: int, value: u32, n: int) -> Result<
    Seq<char>,
    ErrorView,
>
    decreases s.len() - k, 0int,
{
    if k < 0 || k >= s.len() {
        Err(ErrorView::EndOfStringInEscape(s))
    } else if s[k] == '}' {
        if is_scalar(value) {
            after_char(value as char, unescaped_from(s, k + 1))
        } else {
            Err(ErrorView::BadUnicode("invalid unicode value"@))
        }
    } else if n >= 6 {
        Err(ErrorView::BadUnicode("at most 6 hex digits"@))
    } else {
        match hex_value(s[k]) {
            Some(v) => unicode_from(s, k + 1, (value * 16 + v) as u32, n + 1),
            None => Err(ErrorView::BadHexDigit("unicode escape requires hex digits"@)),
        }
    }
}

/// Whether `s` holds a backslash.
pub open spec fn has_backslash(s: Seq<char>) -> bool {
    exists|i: int| 0 <= i < s.len() && s[i] == '\\'
}

/// What the string `s` becomes once its escapes are resolved: nothing new
/// where it holds no backslash, else the resolved text, or the first error
/// in it.
pub open spec fn unescaped(s: Seq<char>) -> Result<Option<Seq<char>>, ErrorView> {
    if !has_backslash(s) {
        Ok(None)
    } else {
        match unescaped_from(s, 0) {
            Ok(t) => Ok(Some(t)),
            Err(e) => Err(e),
        }
    }
}

/// The result of resolving escapes, taken by its view.
pub open spec fn unescape_view(r: Result<Option<String>, Error>) -> Result<
    Option<Seq<char>>,
    ErrorView,
> {
    match r {
        Ok(Some(s)) => Ok(Some(s@)),
        Ok(None) => Ok(None),
        Err(e) => Err(e@),
    }
}

/// A text before a character before a text is the text with the
/// character, before the text.
pub proof fn lemma_after_text_char(prefix: Seq<char>, c: char, t: Result<Seq<char>, ErrorView>)
    ensures
        after_text(prefix, after_char(c, t)) == after_text(prefix.push(c), t),
{
    match t {
        Ok(rest) => {
            assert(prefix + (seq![c] + rest) =~= prefix.push(c) + rest);
        },
        Err(_) => {},
    }
}

/// Characters before the first backslash stand for themselves.
pub proof fn lemma_unescaped_prefix(s: Seq<char>, i: int)
    requires
        0 <= i <= s.len(),
        forall|k: int| 0 <= k < i ==> s[k] != '\\',
    ensures
        unescaped_from(s, 0) == after_text(s.subrange(0, i), unescaped_from(s, i)),
    decreases i,
{
    if i == 0 {
        match unescaped_from(s, 0) {
            Ok(t) => {
                assert(s.subrange(0, 0) + t =~= t);
            },
            Err(_) => {},
        }
    } else {
        lemma_unescaped_prefix(s, i - 1);
        lemma_after_text_char(s.subrange(0, i - 1), s[i - 1], unescaped_from(s, i));
        assert(s.subrange(0, i - 1).push(s[i - 1]) =~= s.subrange(0, i));
    }
}

/// The value of the hexadecimal digit `c`; `reason` says what it is
/// needed for, should it be none.
pub fn hex_of_byte(reason: &str, c: char) -> (r: Result<u32, Error>)
    ensures
        match hex_value(c) {
            Some(v) => r == Ok::<u32, Error>(v),
            None => r matches Err(e) && e@ == ErrorView::BadHexDigit(reason@),
        },
{
    let v: u32 = c as u32;
    if 0x30 <= v && v <= 0x39 {
        Ok(v - 0x30)
    } else if 0x61 <= v && v <= 0x66 {
        Ok(v - 0x61 + 10)
    } else if 0x41 <= v && v <= 0x46 {
        Ok(v - 0x41 + 10)
    } else {
        Err(Error::BadHexDigit(String::from_str(reason)))
    }
}

/// The error of a backslash before `c`, which it has no meaning for.
fn bad_escape(c: char) -> (e: Error)
    ensures
        e@ == ErrorView::BadEscape(bad_escape_message(c)),
{
    let v: u32 = c as u32;
    let byte: u32 = if v < 0x80 {
        v
    } else if v < 0x800 {
        0xC0 + v / 0x40
    } else if v < 0x10000 {
        0xE0 + v / 0x1000
    } else {
        0xF0 + v / 0x40000
    };
    let mut s = String::from_str("bad escape");
    s.push(' ');
    s.push('\'');
    push_decimal(&mut s, byte as usize);
    s.push('\'');
    assert(s@ =~= bad_escape_message(c));
    Error::BadEscape(s)
}

/// A string with its escapes resolved.
#[derive(Debug)]
pub struct Escapable<'a> {
    s: &'a str,
    escaped: Option<String>,
}

impl<'a> View for Escapable<'a> {
    type V = Seq<char>;

    /// The text that the string stands for.
    closed spec fn view(&self) -> Seq<char> {
        match self.escaped {
            Some(e) => e@,
            None => self.s@,
        }
    }
}

impl<'a> Escapable<'a> {
    /// Resolves the escapes of `chars`, whose first `i` characters hold no
    /// backslash.
    pub fn unescape(chars: &Vec<char>, i: usize) -> (r: Result<Option<String>, Error>)
        requires
            i <= chars.len(),
            forall|k: int| 0 <= k < i ==> chars@[k] != '\\',
        ensures
            unescape_view(r) == (match unescaped_from(chars@, 0) {
                Ok(t) => Ok::<Option<Seq<char>>, ErrorView>(Some(t)),
                Err(e) => Err(e),
            }),
    {
        let ghost s = chars@;
        let n = chars.len();
        let mut r = string_of_range(chars, 0, i);
        let mut k: usize = i;
        proof {
            lemma_unescaped_prefix(s, i as int);
        }
        while k < n
            invariant
                s == chars@,
                n == chars.len(),
                k <= n,
                unescaped_from(s, 0) == after_text(r@, unescaped_from(s, k as int)),
            decreases n - k,
        {
            let c = chars[k];
            if c != '\\' {
                proof {
                    lemma_after_text_char(r@, c, unescaped_from(s, k + 1));
                }
                r.push(c);
                k += 1;
                continue ;
            }
            if k + 1 >= n {
                return Err(Error::EndOfStringInEscape(string_of(chars)));
            }
            let e = chars[k + 1];
            let plain: Option<char> = if e == '0' {
                Some('\0')
            } else if e == 't' {
                Some('\t')
            } else if e == 'r' {
                Some('\r')
            } else if e == 'n' {
                Some('\n')
            } else if e == '\'' {
                Some('\'')
            } else if e == '"' {
                Some('"')
            } else if e == '\\' {
                Some('\\')
            } else {
                None
            };
            match plain {
                Some(p) => {
                    proof {
                        lemma_after_text_char(r@, p, unescaped_from(s, k + 2));
                    }
                    r.push(p);
                    k += 2;
                    continue ;
                },
                None => {},
            }
            if e == 'x' {
                if n - k > 3 {
                    let a = match hex_of_byte("hex escape requires hex digits", chars[k + 2]) {
                        Ok(a) => a,
                        Err(x) => {
                            return Err(x);
                        },
                    };
                    let b = match hex_of_byte("hex escape requires hex digits", chars[k + 3]) {
                        Ok(b) => b,
                        Err(x) => {
                            return Err(x);
                        },
                    };
                    let unicode: u32 = a * 16 + b;
                    if unicode > 0x7f {
                        return Err(
                            Error::BadHexEscape(String::from_str("hex escape must be in range 0-0x7f")),
                        );
                    }
                    let p = (unicode as u8) as char;
                    proof {
                        lemma_after_text_char(r@, p, unescaped_from(s, k + 4));
                    }
                    r.push(p);
                    k += 4;
                } else {
                    return Err(Error::BadHexEscape(String::from_str("hex escape must be \\xXX")));
                }
            } else if e == 'u' {
                if n - k <= 3 {
                    return Err(Error::BadUnicode(String::from_str("malformed unicode escape")));
                }
                if chars[k + 2] != '{' {
                    return Err(Error::BadUnicode(String::from_str("\\u escape requires { to follow")));
                }
                let first = match hex_of_byte("unicode escape requires hex digits", chars[k + 3]) {
                    Ok(v) => v,
                    Err(x) => {
                        return Err(x);
                    },
                };
                let mut value: u32 = first;
                let mut digits: usize = 1;
                let mut j: usize = k + 4;
                let mut closed = false;
                while !closed
                    invariant
                        s == chars@,
                        n == chars.len(),
                        k < j <= n,
                        1 <= digits <= 6,
                        digits == 1 ==> value < 0x10,
                        digits == 2 ==> value < 0x100,
                        digits == 3 ==> value < 0x1000,
                        digits == 4 ==> value < 0x10000,
                        digits == 5 ==> value < 0x100000,
                        digits == 6 ==> value < 0x1000000,
                        !closed ==> unescaped_from(s, 0) == after_text(
                            r@,
                            unicode_from(s, j as int, value, digits as int),
                        ),
                        closed ==> unescaped_from(s, 0) == after_text(r@, unescaped_from(s, j as int)),
                    decreases n - j + (if closed { 0int } else { 1int }),
                {
                    if j >= n {
                        return Err(Error::EndOfStringInEscape(string_of(chars)));
                    }
                    let d = chars[j];
                    if d == '}' {
                        match char::from_u32(value) {
                            Some(ch) => {
                                proof {
                                    lemma_after_text_char(r@, ch, unescaped_from(s, j + 1));
                                }
                                r.push(ch);
                                j += 1;
                                closed = true;
                            },
                            None => {
                                return Err(
                                    Error::BadUnicode(String::from_str("invalid unicode value")),
                                );
                            },
                        }
                    } else if digits == 6 {
                        return Err(Error::BadUnicode(String::from_str("at most 6 hex digits")));
                    } else {
                        let v = match hex_of_byte("unicode escape requires hex digits", d) {
                            Ok(v) => v,
                            Err(x) => {
                                return Err(x);
                            },
                        };
                        value = value * 16 + v;
                        digits += 1;
                        j += 1;
                    }
                }
                k = j;
            } else {
                return Err(bad_escape(e));
            }
        }
        proof {
            match unescaped_from(s, 0) {
                Ok(t) => {
                    assert(r@ + Seq::<char>::empty() =~= r@);
                },
                Err(_) => {},
            }
        }
        Ok(Some(r))
    }

    /// Resolves the escapes of `s`: `None` where it holds no backslash, else
    /// the resolved text. An escape of a bad form is rejected.
    pub fn opt_unescape(s: &str) -> (r: Result<Option<String>, Error>)
        ensures
            unescape_view(r) == unescaped(s@),
    {
        let chars = chars_of(s);
        let mut i: usize = 0;
        while i < chars.len()
            invariant
                i <= chars.len(),
                chars@ == s@,
                forall|k: int| 0 <= k < i ==> chars@[k] != '\\',
            decreases chars.len() - i,
        {
            if chars[i] == '\\' {
                assert(has_backslash(chars@));
                return Escapable::unescape(&chars, i);
            }
            i += 1;
        }
        assert(!has_backslash(chars@));
        Ok(None)
    }

    /// Resolves the escapes of `s`. A string without a backslash stands
    /// for itself. An escape of a bad form is rejected.
    pub fn new(s: &'a str) -> (r: Result<Self, Error>)
        ensures
            match unescaped(s@) {
                Ok(Some(t)) => r matches Ok(e) && e@ == t,
                Ok(None) => r matches Ok(e) && e@ == s@,
                Err(x) => r matches Err(e) && e@ == x,
            },
    {
        match Escapable::opt_unescape(s) {
            Ok(escaped) => Ok(Self { s, escaped }),
            Err(e) => Err(e),
        }
    }

    /// The text that the string stands for.
    pub fn as_ref(&self) -> (r: &str)
        ensures
            r@ == self@,
    {
        match &self.escaped {
            Some(escaped) => escaped.as_str(),
            None => self.s,
        }
    }
}

} // verus!
