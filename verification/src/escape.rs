//! Escapes of XML: the characters that are written as entities, and the
//! entities that are read as characters.
use vstd::prelude::*;
use vstd::string::*;
use vstd::utf8::is_scalar;
use crate::text::{chars_of, same_text, string_of_range};

verus! {

/// Bit that asks for `"` to be escaped
pub const ESCAPE_QUOTE: usize = 1;

/// Bit that asks for `'` to be escaped
pub const ESCAPE_APOS: usize = 2;

/// Bit that asks for `>` to be escaped
pub const ESCAPE_GT: usize = 4;

/// Bit that asks for the line feed to be escaped
pub const ESCAPE_LF: usize = 8;

/// Bit that asks for the carriage return to be escaped
pub const ESCAPE_CR: usize = 16;

/// The bits for the value of an attribute: all of them
pub const ESCAPE_ATTR: usize = 31;

/// The bits for character data: none
pub const ESCAPE_PCDATA: usize = 0;

/// Whether the set of bits `char_set` holds the bit `esc`.
pub open spec fn spec_do_esc(char_set: usize, esc: usize) -> bool {
    (char_set & esc) != 0
}

/// Whether the set of bits `char_set` holds the bit `esc`.
#[verifier::when_used_as_spec(spec_do_esc)]
pub fn do_esc(char_set: usize, esc: usize) -> (r: bool)
    ensures
        r == spec_do_esc(char_set, esc),
{
    (char_set & esc) != 0
}

/// What `c` is written as where it has to be escaped: `&` and `<` always,
/// the others where `char_set` asks for it.
pub open spec fn replacement(c: char, char_set: usize) -> Option<Seq<char>> {
    if c == '&' {
        Some("&amp;"@)
    } else if c == '<' {
        Some("&lt;"@)
    } else if c == '\'' && spec_do_esc(char_set, ESCAPE_APOS) {
        Some("&apos;"@)
    } else if c == '"' && spec_do_esc(char_set, ESCAPE_QUOTE) {
        Some("&quot;"@)
    } else if c == '>' && spec_do_esc(char_set, ESCAPE_GT) {
        Some("&gt;"@)
    } else if c == '\n' && spec_do_esc(char_set, ESCAPE_LF) {
        Some("&#xA;"@)
    } else if c == '\r' && spec_do_esc(char_set, ESCAPE_CR) {
        Some("&#xD;"@)
    } else {
        None
    }
}

/// The text `s` with each character that has to be escaped written as its
/// entity.
pub open spec fn escaped_text(s: Seq<char>, char_set: usize) -> Seq<char>
    decreases s.len(),
{
    if s.len() == 0 {
        Seq::empty()
    } else {
        escaped_text(s.drop_last(), char_set) + (match replacement(s.last(), char_set) {
            Some(r) => r,
            None => seq![s.last()],
        })
    }
}

/// Whether a character of `s` has to be escaped.
pub open spec fn needs_escape(s: Seq<char>, char_set: usize) -> bool {
    exists|i: int| 0 <= i < s.len() && replacement(#[trigger] s[i], char_set) is Some
}

/// Text that holds nothing to escape stays as it is.
pub proof fn lemma_escaped_text_plain(s: Seq<char>, char_set: usize)
    requires
        forall|i: int| 0 <= i < s.len() ==> replacement(#[trigger] s[i], char_set) is None,
    ensures
        escaped_text(s, char_set) == s,
    decreases s.len(),
{
    if s.len() > 0 {
        lemma_escaped_text_plain(s.drop_last(), char_set);
        assert(s.drop_last().push(s.last()) =~= s);
        assert(escaped_text(s, char_set) =~= s);
    }
}

/// The escaped text of a concatenation is that of its parts.
pub proof fn lemma_escaped_text_concat(a: Seq<char>, b: Seq<char>, char_set: usize)
    ensures
        escaped_text(a + b, char_set) == escaped_text(a, char_set) + escaped_text(b, char_set),
    decreases b.len(),
{
    if b.len() == 0 {
        assert(a + b =~= a);
        assert(escaped_text(a, char_set) + escaped_text(b, char_set) =~= escaped_text(a, char_set));
    } else {
        lemma_escaped_text_concat(a, b.drop_last(), char_set);
        assert((a + b).drop_last() =~= a + b.drop_last());
        assert((a + b).last() == b.last());
        let tail = match replacement(b.last(), char_set) {
            Some(r) => r,
            None => seq![b.last()],
        };
        assert(escaped_text(a + b, char_set) =~= escaped_text(a, char_set) + (escaped_text(
            b.drop_last(),
            char_set,
        ) + tail));
    }
}

/// What `c` is written as where it has to be escaped.
fn entity_of(c: char, char_set: usize) -> (r: Option<&'static str>)
    ensures
        match replacement(c, char_set) {
            Some(t) => r matches Some(x) && x@ == t,
            None => r is None,
        },
{
    if c == '&' {
        Some("&amp;")
    } else if c == '<' {
        Some("&lt;")
    } else if c == '\'' && do_esc(char_set, ESCAPE_APOS) {
        Some("&apos;")
    } else if c == '"' && do_esc(char_set, ESCAPE_QUOTE) {
        Some("&quot;")
    } else if c == '>' && do_esc(char_set, ESCAPE_GT) {
        Some("&gt;")
    } else if c == '\n' && do_esc(char_set, ESCAPE_LF) {
        Some("&#xA;")
    } else if c == '\r' && do_esc(char_set, ESCAPE_CR) {
        Some("&#xD;")
    } else {
        None
    }
}

/// The first `i` characters of `chars` as they are, and after them the
/// characters up to `n`, each that has to be escaped written as its
/// entity.
pub fn escape_required(chars: &Vec<char>, char_set: usize, i: usize, n: usize) -> (r: Option<
    String,
>)
    requires
        i <= n <= chars.len(),
    ensures
        r matches Some(x) && x@ == chars@.subrange(0, i as int) + escaped_text(
            chars@.subrange(i as int, n as int),
            char_set,
        ),
{
    let mut r = string_of_range(chars, 0, i);
    let mut k: usize = i;
    assert(chars@.subrange(i as int, i as int) =~= Seq::<char>::empty());
    assert(r@ + Seq::<char>::empty() =~= r@);
    while k < n
        invariant
            i <= k <= n <= chars.len(),
            r@ == chars@.subrange(0, i as int) + escaped_text(
                chars@.subrange(i as int, k as int),
                char_set,
            ),
        decreases n - k,
    {
        let c = chars[k];
        let ghost done = escaped_text(chars@.subrange(i as int, k as int), char_set);
        proof {
            assert(chars@.subrange(i as int, k + 1).drop_last() =~= chars@.subrange(
                i as int,
                k as int,
            ));
            assert(chars@.subrange(i as int, k + 1).last() == c);
        }
        match entity_of(c, char_set) {
            Some(e) => {
                r.append(e);
                assert(r@ =~= chars@.subrange(0, i as int) + (done + e@));
            },
            None => {
                r.push(c);
                assert(r@ =~= chars@.subrange(0, i as int) + (done + seq![c]));
            },
        }
        k += 1;
    }
    Some(r)
}

/// The text `s` with each character that has to be escaped written as its
/// entity; `None` where no character has to be.
pub fn escape(s: &str, char_set: usize) -> (r: Option<String>)
    ensures
        match r {
            Some(x) => needs_escape(s@, char_set) && x@ == escaped_text(s@, char_set),
            None => !needs_escape(s@, char_set),
        },
{
    let chars = chars_of(s);
    let n = chars.len();
    let mut i: usize = 0;
    while i < n
        invariant
            i <= n,
            n == chars.len(),
            chars@ == s@,
            forall|k: int| 0 <= k < i ==> replacement(#[trigger] chars@[k], char_set) is None,
        decreases n - i,
    {
        if entity_of(chars[i], char_set).is_some() {
            proof {
                let head = chars@.subrange(0, i as int);
                let tail = chars@.subrange(i as int, n as int);
                lemma_escaped_text_plain(head, char_set);
                lemma_escaped_text_concat(head, tail, char_set);
                assert(head + tail =~= chars@);
                assert(replacement(chars@[i as int], char_set) is Some);
            }
            return escape_required(&chars, char_set, i, n);
        }
        i += 1;
    }
    None
}

/// What has been made of an entity while it is read: whether it can
/// still be a hexadecimal or a decimal number, and the value so far.
pub ghost struct EntityState {
    pub is_hex: bool,
    pub is_dec: bool,
    pub value: u32,
}

/// The state before the first character of an entity.
pub open spec fn entity_start() -> EntityState {
    EntityState { is_hex: false, is_dec: true, value: 0 }
}

/// The state after the character `c` of an entity; `first` and `second`
/// say whether it is the first or the second character after `&`.
///
/// `#` at the first place keeps the entity a number. `x` at the second
/// place makes a decimal number a hexadecimal one. A digit adds to the
/// value, in the base that holds; a value beyond 10ffff ends the number.
/// A letter from `a` to `f` adds to the value as a hexadecimal digit and
/// ends a decimal number. Any other character ends the number.
pub open spec fn entity_step(st: EntityState, c: char, first: bool, second: bool) -> EntityState {
    let b = c as u32;
    if first {
        if c != '#' {
            EntityState { is_dec: false, ..st }
        } else {
            st
        }
    } else if (0x61 <= b <= 0x66) || (0x41 <= b <= 0x46) {
        EntityState { value: (st.value << 4) | (((b & 0xf) + 9) as u32), is_dec: false, ..st }
    } else if c == 'x' {
        EntityState { is_hex: st.is_hex || (second && st.is_dec), is_dec: false, ..st }
    } else if 0x30 <= b <= 0x39 {
        let value = if st.is_dec {
            (st.value * 10 + (b - 0x30)) as u32
        } else {
            (st.value << 4) | (b & 0xf)
        };
        if value > 0x10ffff {
            EntityState { is_hex: false, is_dec: false, value: 0 }
        } else {
            EntityState { value, ..st }
        }
    } else {
        EntityState { is_hex: false, is_dec: false, ..st }
    }
}

/// Reads an entity from character `k` of `s` up to `;` or to `n`: the
/// index at which it stopped, and the state there. The entity started at
/// `start`.
pub open spec fn entity_scan(s: Seq<char>, start: int, k: int, n: int, st: EntityState) -> (
    int,
    EntityState,
)
    decreases n - k,
{
    if k >= n || k < 0 || k >= s.len() {
        (k, st)
    } else if s[k] == ';' {
        (k, st)
    } else {
        entity_scan(s, start, k + 1, n, entity_step(st, s[k], k == start, k == start + 1))
    }
}

/// The index of the first `&` among `s[k..n]`, or `n`.
pub open spec fn next_ampersand(s: Seq<char>, k: int, n: int) -> int
    decreases n - k,
{
    if k >= n || k < 0 || k >= s.len() {
        k
    } else if s[k] == '&' {
        k
    } else {
        next_ampersand(s, k + 1, n)
    }
}

/// The index of the first of `names[k..]` that equals `name`, or the
/// number of names.
pub open spec fn entity_index(names: Seq<(Seq<char>, Seq<char>)>, name: Seq<char>, k: int) -> int
    decreases names.len() - k,
{
    if k < 0 || k >= names.len() {
        names.len() as int
    } else if names[k].0 == name {
        k
    } else {
        entity_index(names, name, k + 1)
    }
}

/// A stretch of a text: where it ends, and what it is to be replaced
/// with, a text or a character, if it is an entity that stands for one.
pub ghost struct SpanFound {
    pub end: int,
    pub text: Option<Seq<char>>,
    pub ch: Option<char>,
}

/// The stretch of `s[..n]` that starts at character `i`.
///
/// Where `&` starts it, it runs up to and with the next `;`, or to `n`
/// where there is none. With a `;` it is an entity: where `inc_map` holds
/// and `map` knows its name, it stands for the text that `map` gives; else,
/// where it is a number, it stands for the character of that number, if
/// there is one. A stretch that no `&` starts runs up to the next `&`.
pub open spec fn span_found(
    map: Seq<(Seq<char>, Seq<char>)>,
    inc_map: bool,
    s: Seq<char>,
    i: int,
    n: int,
) -> SpanFound {
    if s[i] == '&' {
        let (k, st) = entity_scan(s, i + 1, i + 1, n, entity_start());
        if k >= n {
            SpanFound { end: k, text: None, ch: None }
        } else {
            let e = entity_index(map, s.subrange(i + 1, k), 0);
            if inc_map && e < map.len() {
                SpanFound { end: k + 1, text: Some(map[e].1), ch: None }
            } else if (st.is_hex || st.is_dec) && is_scalar(st.value) {
                SpanFound { end: k + 1, text: None, ch: Some(st.value as char) }
            } else {
                SpanFound { end: k + 1, text: None, ch: None }
            }
        }
    } else {
        SpanFound { end: next_ampersand(s, i + 1, n), text: None, ch: None }
    }
}

/// A stretch ends after its start and at `n` at most.
pub proof fn lemma_span_found(
    map: Seq<(Seq<char>, Seq<char>)>,
    inc_map: bool,
    s: Seq<char>,
    i: int,
    n: int,
)
    requires
        0 <= i < n <= s.len(),
    ensures
        i < span_found(map, inc_map, s, i, n).end <= n,
{
    lemma_entity_scan(s, i + 1, i + 1, n, entity_start());
    lemma_next_ampersand(s, i + 1, n);
}

/// Reading an entity stops at or after where it started and at `n` at
/// most.
pub proof fn lemma_entity_scan(s: Seq<char>, start: int, k: int, n: int, st: EntityState)
    requires
        0 <= k <= n <= s.len(),
    ensures
        k <= entity_scan(s, start, k, n, st).0 <= n,
    decreases n - k,
{
    if k < n && s[k] != ';' {
        lemma_entity_scan(s, start, k + 1, n, entity_step(st, s[k], k == start, k == start + 1));
    }
}

/// The next `&` is at or after where the search started and at `n` at
/// most.
pub proof fn lemma_next_ampersand(s: Seq<char>, k: int, n: int)
    requires
        0 <= k <= n <= s.len(),
    ensures
        k <= next_ampersand(s, k, n) <= n,
    decreases n - k,
{
    if k < n && s[k] != '&' {
        lemma_next_ampersand(s, k + 1, n);
    }
}

/// The text `s[i..n]` with each entity that stands for something replaced
/// by that.
pub open spec fn replaced_from(
    map: Seq<(Seq<char>, Seq<char>)>,
    inc_map: bool,
    s: Seq<char>,
    i: int,
    n: int,
) -> Seq<char>
    decreases n - i,
    via replaced_from_decreases
{
    if i < 0 || i >= n || n > s.len() {
        Seq::empty()
    } else {
        let f = span_found(map, inc_map, s, i, n);
        let head = match (f.text, f.ch) {
            (Some(t), _) => t,
            (None, Some(c)) => seq![c],
            (None, None) => s.subrange(i, f.end),
        };
        head + replaced_from(map, inc_map, s, f.end, n)
    }
}

#[via_fn]
proof fn replaced_from_decreases(
    map: Seq<(Seq<char>, Seq<char>)>,
    inc_map: bool,
    s: Seq<char>,
    i: int,
    n: int,
) {
    if 0 <= i < n <= s.len() {
        lemma_span_found(map, inc_map, s, i, n);
    }
}

/// The index of the first stretch of `s[i..n]` that is an entity which
/// stands for something, or `n` where there is none.
pub open spec fn first_entity(
    map: Seq<(Seq<char>, Seq<char>)>,
    inc_map: bool,
    s: Seq<char>,
    i: int,
    n: int,
) -> int
    decreases n - i,
    via first_entity_decreases
{
    if i < 0 || i >= n || n > s.len() {
        n
    } else {
        let f = span_found(map, inc_map, s, i, n);
        if f.text is Some || f.ch is Some {
            i
        } else {
            first_entity(map, inc_map, s, f.end, n)
        }
    }
}

#[via_fn]
proof fn first_entity_decreases(
    map: Seq<(Seq<char>, Seq<char>)>,
    inc_map: bool,
    s: Seq<char>,
    i: int,
    n: int,
) {
    if 0 <= i < n <= s.len() {
        lemma_span_found(map, inc_map, s, i, n);
    }
}

/// The names of a sequence of entities with what they stand for, as
/// sequences of characters.
pub open spec fn entity_views(map: Seq<(String, String)>) -> Seq<(Seq<char>, Seq<char>)> {
    map.map_values(|e: (String, String)| (e.0@, e.1@))
}

/// The entities of XML and what they stand for.
pub open spec fn xml_entities() -> Seq<(Seq<char>, Seq<char>)> {
    seq![
        ("amp"@, "&"@),
        ("AMP"@, "&"@),
        ("lt"@, "<"@),
        ("LT"@, "<"@),
        ("gt"@, ">"@),
        ("GT"@, ">"@),
        ("apos"@, "'"@),
        ("APOS"@, "'"@),
        ("quot"@, "\""@),
        ("QUOT"@, "\""@),
    ]
}

/// A set of entities: names, and the text that each stands for.
pub struct Entities {
    map: Vec<(String, String)>,
}

impl View for Entities {
    type V = Seq<(Seq<char>, Seq<char>)>;

    closed spec fn view(&self) -> Seq<(Seq<char>, Seq<char>)> {
        entity_views(self.map@)
    }
}

impl Default for Entities {
    /// No entities.
    fn default() -> (e: Self)
        ensures
            e@ == Seq::<(Seq<char>, Seq<char>)>::empty(),
    {
        let e = Entities { map: Vec::new() };
        assert(e@ =~= Seq::<(Seq<char>, Seq<char>)>::empty());
        e
    }
}

impl Entities {
    /// The entities of XML: `amp`, `lt`, `gt`, `apos` and `quot`, in
    /// small letters and in capitals.
    pub fn xml() -> (e: Self)
        ensures
            e@ == xml_entities(),
    {
        let mut map: Vec<(String, String)> = Vec::new();
        map.push((String::from_str("amp"), String::from_str("&")));
        map.push((String::from_str("AMP"), String::from_str("&")));
        map.push((String::from_str("lt"), String::from_str("<")));
        map.push((String::from_str("LT"), String::from_str("<")));
        map.push((String::from_str("gt"), String::from_str(">")));
        map.push((String::from_str("GT"), String::from_str(">")));
        map.push((String::from_str("apos"), String::from_str("'")));
        map.push((String::from_str("APOS"), String::from_str("'")));
        map.push((String::from_str("quot"), String::from_str("\"")));
        map.push((String::from_str("QUOT"), String::from_str("\"")));
        assert(entity_views(map@) =~= xml_entities());
        Entities { map }
    }

    /// The text that the entity `name` stands for, if it is known.
    fn lookup(&self, name: &str) -> (r: Option<&str>)
        ensures
            match r {
                Some(t) => entity_index(self@, name@, 0) < self@.len() && t@ == self@[entity_index(
                    self@,
                    name@,
                    0,
                )].1,
                None => entity_index(self@, name@, 0) >= self@.len(),
            },
    {
        let mut k: usize = 0;
        while k < self.map.len()
            invariant
                k <= self.map.len(),
                entity_index(self@, name@, 0) == entity_index(self@, name@, k as int),
            decreases self.map.len() - k,
        {
            assert(self@[k as int] == (self.map@[k as int].0@, self.map@[k as int].1@));
            if same_text(self.map[k].0.as_str(), name) {
                return Some(self.map[k].1.as_str());
            }
            k += 1;
        }
        None
    }

    /// Finds the stretch of `chars[..n]` that starts at `i`: where it
    /// ends, and the text or the character that it is to be replaced with,
    /// if it is an entity that stands for one.
    pub fn find_span(&self, inc_map: bool, chars: &Vec<char>, i: usize, n: usize) -> (r: (
        usize,
        Option<&str>,
        Option<char>,
    ))
        requires
            i < n <= chars.len(),
        ensures
            ({
                let f = span_found(self@, inc_map, chars@, i as int, n as int);
                &&& r.0 == f.end
                &&& i < r.0 <= n
                &&& match f.text {
                    Some(t) => r.1 matches Some(x) && x@ == t,
                    None => r.1 is None,
                }
                &&& r.2 == f.ch
            }),
    {
        let ghost s = chars@;
        proof {
            lemma_span_found(self@, inc_map, s, i as int, n as int);
        }
        if chars[i] == '&' {
            let start: usize = i + 1;
            let mut k: usize = start;
            let mut is_hex = false;
            let mut is_dec = true;
            let mut value: u32 = 0;
            while k < n && chars[k] != ';'
                invariant
                    s == chars@,
                    start <= k <= n <= chars.len(),
                    is_dec ==> value <= 0x10ffff,
                    entity_scan(s, start as int, start as int, n as int, entity_start())
                        == entity_scan(
                        s,
                        start as int,
                        k as int,
                        n as int,
                        EntityState { is_hex, is_dec, value },
                    ),
                decreases n - k,
            {
                let c = chars[k];
                let b: u32 = c as u32;
                if k == start {
                    if c != '#' {
                        is_dec = false;
                    }
                } else if (0x61 <= b && b <= 0x66) || (0x41 <= b && b <= 0x46) {
                    assert((b & 0xf) <= 0xf) by (bit_vector);
                    value = (value << 4) | ((b & 0xf) + 9);
                    is_dec = false;
                } else if c == 'x' {
                    if k == start + 1 && is_dec {
                        is_hex = true;
                    }
                    is_dec = false;
                } else if 0x30 <= b && b <= 0x39 {
                    if is_dec {
                        value = value * 10 + (b - 0x30);
                    } else {
                        value = (value << 4) | (b & 0xf);
                    }
                    if value > 0x10ffff {
                        is_dec = false;
                        is_hex = false;
                        value = 0;
                    }
                } else {
                    is_dec = false;
                    is_hex = false;
                }
                k += 1;
            }
            if k >= n {
                return (k, None, None);
            }
            if inc_map {
                let name = string_of_range(chars, start, k);
                match self.lookup(name.as_str()) {
                    Some(t) => {
                        return (k + 1, Some(t), None);
                    },
                    None => {},
                }
            }
            if is_hex || is_dec {
                match char::from_u32(value) {
                    Some(c) => {
                        return (k + 1, None, Some(c));
                    },
                    None => {},
                }
            }
            (k + 1, None, None)
        } else {
            let mut k: usize = i + 1;
            while k < n && chars[k] != '&'
                invariant
                    s == chars@,
                    i < k <= n <= chars.len(),
                    next_ampersand(s, i + 1, n as int) == next_ampersand(s, k as int, n as int),
                decreases n - k,
            {
                k += 1;
            }
            (k, None, None)
        }
    }

    /// The first `d` characters of `chars` as they are, then the text `c`,
    /// and after it the characters from `i` to `n` with each entity that
    /// stands for something replaced by that.
    pub fn replace_entities_required(
        &self,
        inc_map: bool,
        chars: &Vec<char>,
        c: &str,
        d: usize,
        i: usize,
        n: usize,
    ) -> (r: Option<String>)
        requires
            d <= i <= n <= chars.len(),
        ensures
            r matches Some(x) && x@ == chars@.subrange(0, d as int) + c@ + replaced_from(
                self@,
                inc_map,
                chars@,
                i as int,
                n as int,
            ),
    {
        let ghost s = chars@;
        let mut r = string_of_range(chars, 0, d);
        r.append(c);
        let ghost head = r@;
        let mut k: usize = i;
        let ghost total = replaced_from(self@, inc_map, s, i as int, n as int);
        assert(head + total =~= s.subrange(0, d as int) + c@ + total);
        while k < n
            invariant
                s == chars@,
                i <= k <= n <= chars.len(),
                r@ + replaced_from(self@, inc_map, s, k as int, n as int) == head + total,
            decreases n - k,
        {
            let ghost rest = replaced_from(self@, inc_map, s, k as int, n as int);
            let ghost before = r@;
            let (next, opt_a, opt_b) = self.find_span(inc_map, chars, k, n);
            let ghost after = replaced_from(self@, inc_map, s, next as int, n as int);
            if let Some(t) = opt_a {
                r.append(t);
                assert(r@ + after =~= before + (t@ + after));
            } else if let Some(ch) = opt_b {
                r.push(ch);
                assert(r@ + after =~= before + (seq![ch] + after));
            } else {
                let piece = string_of_range(chars, k, next);
                r.append(piece.as_str());
                assert(r@ + after =~= before + (s.subrange(k as int, next as int) + after));
            }
            k = next;
        }
        assert(r@ + Seq::<char>::empty() =~= r@);
        Some(r)
    }

    /// The text `s` with each entity that stands for something replaced by
    /// that; `None` where `s` holds no such entity. The names of this set
    /// are used only where `inc_map` holds; entities that are numbers are
    /// replaced in any case.
    pub fn replace_entities(&self, inc_map: bool, s: &str) -> (r: Option<String>)
        ensures
            ({
                let n = s@.len() as int;
                let e = first_entity(self@, inc_map, s@, 0, n);
                if e >= n {
                    r is None
                } else {
                    r matches Some(x) && x@ == s@.subrange(0, e) + replaced_from(
                        self@,
                        inc_map,
                        s@,
                        e,
                        n,
                    )
                }
            }),
    {
        let chars = chars_of(s);
        let n = chars.len();
        let mut i: usize = 0;
        while i < n
            invariant
                i <= n,
                n == chars.len(),
                chars@ == s@,
                first_entity(self@, inc_map, chars@, 0, n as int) == first_entity(
                    self@,
                    inc_map,
                    chars@,
                    i as int,
                    n as int,
                ),
            decreases n - i,
        {
            let (next, opt_a, opt_b) = self.find_span(inc_map, &chars, i, n);
            if let Some(t) = opt_a {
                let r = self.replace_entities_required(inc_map, &chars, t, i, next, n);
                proof {
                    let x = r->0@;
                    assert(x =~= chars@.subrange(0, i as int) + (t@ + replaced_from(
                        self@,
                        inc_map,
                        chars@,
                        next as int,
                        n as int,
                    )));
                }
                return r;
            } else if let Some(ch) = opt_b {
                let mut buf = String::new();
                buf.push(ch);
                let r = self.replace_entities_required(inc_map, &chars, buf.as_str(), i, next, n);
                proof {
                    let x = r->0@;
                    assert(buf@ =~= seq![ch]);
                    assert(x =~= chars@.subrange(0, i as int) + (seq![ch] + replaced_from(
                        self@,
                        inc_map,
                        chars@,
                        next as int,
                        n as int,
                    )));
                }
                return r;
            }
            i = next;
        }
        None
    }
}

} // verus!
