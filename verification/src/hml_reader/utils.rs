//! Character classes of HML.
use vstd::prelude::*;

verus! {

/// The code point of a character.
pub open spec fn code(ch: char) -> int {
    ch as u32 as int
}

/// A newline is a line feed.
pub open spec fn spec_is_newline(ch: char) -> bool {
    ch == '\n'
}

/// A hash is the character that introduces tags and pads quoted strings.
pub open spec fn spec_is_hash(ch: char) -> bool {
    ch == '#'
}

/// A quote is a single or a double quotation mark.
pub open spec fn spec_is_quote(ch: char) -> bool {
    ch == '"' || ch == '\''
}

/// The characters that may start a name: underscore, the ASCII letters and
/// the ranges of code points that may start a name in XML.
pub open spec fn spec_is_name_start(ch: char) -> bool {
    let c = code(ch);
    ||| c == 0x5f
    ||| 0x41 <= c <= 0x5a
    ||| 0x61 <= c <= 0x7a
    ||| 0xc0 <= c <= 0xd6
    ||| 0xd8 <= c <= 0xf6
    ||| 0xf8 <= c <= 0x2ff
    ||| 0x370 <= c <= 0x37d
    ||| 0x37f <= c <= 0x1fff
    ||| 0x200c <= c <= 0x200d
    ||| 0x2070 <= c <= 0x218f
    ||| 0x2c00 <= c <= 0x2fef
    ||| 0x3001 <= c <= 0xd7ff
    ||| 0xf900 <= c <= 0xfdcf
    ||| 0xfdf0 <= c <= 0xfffd
    ||| 0x10000 <= c <= 0xeffff
}

/// The characters that may continue a name: those that may start one, and
/// also `-`, `.`, the middle dot, the ASCII digits, the combining marks and
/// the two tie characters.
pub open spec fn spec_is_name(ch: char) -> bool {
    let c = code(ch);
    ||| spec_is_name_start(ch)
    ||| c == 0x2d
    ||| c == 0x2e
    ||| c == 0xb7
    ||| 0x30 <= c <= 0x39
    ||| 0x300 <= c <= 0x36f
    ||| 0x203f <= c <= 0x2040
}

/// White space as Unicode defines it (the property `White_Space`).
pub open spec fn spec_is_whitespace(ch: char) -> bool {
    let c = code(ch);
    ||| 0x09 <= c <= 0x0d
    ||| c == 0x20
    ||| c == 0x85
    ||| c == 0xa0
    ||| c == 0x1680
    ||| 0x2000 <= c <= 0x200a
    ||| c == 0x2028
    ||| c == 0x2029
    ||| c == 0x202f
    ||| c == 0x205f
    ||| c == 0x3000
}

/// Whether `ch` is a newline.
#[verifier::when_used_as_spec(spec_is_newline)]
pub fn is_newline(ch: char) -> (r: bool)
    ensures
        r == spec_is_newline(ch),
{
    ch == '\n'
}

/// Whether `ch` is a hash.
#[verifier::when_used_as_spec(spec_is_hash)]
pub fn is_hash(ch: char) -> (r: bool)
    ensures
        r == spec_is_hash(ch),
{
    ch == '#'
}

/// Whether `ch` is a single or a double quotation mark.
#[verifier::when_used_as_spec(spec_is_quote)]
pub fn is_quote(ch: char) -> (r: bool)
    ensures
        r == spec_is_quote(ch),
{
    ch == '"' || ch == '\''
}

/// Whether `ch` may start a name.
#[verifier::when_used_as_spec(spec_is_name_start)]
pub fn is_name_start(ch: char) -> (r: bool)
    ensures
        r == spec_is_name_start(ch),
{
    let c: u32 = ch as u32;
    c == 0x5f || (0x41 <= c && c <= 0x5a) || (0x61 <= c && c <= 0x7a) || (0xc0 <= c && c <= 0xd6)
        || (0xd8 <= c && c <= 0xf6) || (0xf8 <= c && c <= 0x2ff) || (0x370 <= c && c <= 0x37d) || (
    0x37f <= c && c <= 0x1fff) || (0x200c <= c && c <= 0x200d) || (0x2070 <= c && c <= 0x218f) || (
    0x2c00 <= c && c <= 0x2fef) || (0x3001 <= c && c <= 0xd7ff) || (0xf900 <= c && c <= 0xfdcf)
        || (0xfdf0 <= c && c <= 0xfffd) || (0x10000 <= c && c <= 0xeffff)
}

/// Whether `ch` may continue a name.
#[verifier::when_used_as_spec(spec_is_name)]
pub fn is_name(ch: char) -> (r: bool)
    ensures
        r == spec_is_name(ch),
{
    if is_name_start(ch) {
        true
    } else {
        let c: u32 = ch as u32;
        c == 0x2d || c == 0x2e || c == 0xb7 || (0x30 <= c && c <= 0x39) || (0x300 <= c && c
            <= 0x36f) || (0x203f <= c && c <= 0x2040)
    }
}

/// Whether `ch` is white space.
#[verifier::when_used_as_spec(spec_is_whitespace)]
pub fn is_whitespace(ch: char) -> (r: bool)
    ensures
        r == spec_is_whitespace(ch),
{
    let c: u32 = ch as u32;
    (0x09 <= c && c <= 0x0d) || c == 0x20 || c == 0x85 || c == 0xa0 || c == 0x1680 || (0x2000 <= c
        && c <= 0x200a) || c == 0x2028 || c == 0x2029 || c == 0x202f || c == 0x205f || c == 0x3000
}

} // verus!
