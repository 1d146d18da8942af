use hml_rs::escape::{do_esc, escape, escape_required, Entities, ESCAPE_ATTR, ESCAPE_PCDATA};
use hml_rs::hml::escape::{hex_of_byte, Error, Escapable};

fn check_ok(r: Option<String>, e: Option<&str>) {
    assert_eq!(r, e.map(|s| s.into()));
}

#[test]
fn escape_test0() {
    check_ok(escape("fred", ESCAPE_ATTR), None);
    check_ok(escape("banana", ESCAPE_ATTR), None);
    check_ok(
        escape("My < and more", ESCAPE_ATTR),
        Some("My &lt; and more"),
    );
    check_ok(
        escape("My > and less", ESCAPE_ATTR),
        Some("My &gt; and less"),
    );
    check_ok(
        escape("My '\"& etc", ESCAPE_ATTR),
        Some("My &apos;&quot;&amp; etc"),
    );
    check_ok(escape("\u{1f600}", ESCAPE_ATTR), None);
    check_ok(escape("\u{1f600} <", ESCAPE_ATTR), Some("\u{1f600} &lt;"));
    check_ok(
        escape("\u{1f600} < \u{1f600} ", ESCAPE_ATTR),
        Some("\u{1f600} &lt; \u{1f600} "),
    );
}

#[test]
fn test_entities() {
    let e = Entities::xml();
    check_ok(e.replace_entities(true, "fred"), None);
    check_ok(e.replace_entities(true, "&amp;&AMP;"), Some("&&"));
    check_ok(e.replace_entities(true, "&lt;&LT;&GT;&gt;"), Some("<<>>"));
    check_ok(e.replace_entities(true, "&blob;&QUOT;"), Some("&blob;\""));
    check_ok(e.replace_entities(true, "&#xfffffff;"), None);
    check_ok(e.replace_entities(true, "&#x32;"), Some("2"));
    check_ok(e.replace_entities(true, "&#32;"), Some(" "));
    check_ok(e.replace_entities(true, "&#9999999999999;"), None);
    check_ok(e.replace_entities(true, "&#x32;&#32;"), Some("2 "));
    check_ok(e.replace_entities(true, "&#32;&#x32;"), Some(" 2"));
}

#[test]
fn test0() {
    let _e: Escapable = Escapable::new(r"fred").unwrap();
    assert!(Escapable::new(r"\").is_err());
    assert!(Escapable::new(r"\u").is_err());
    assert!(Escapable::new(r"\ua").is_err());
    assert!(Escapable::new(r"\z").is_err());
    assert!(Escapable::new(r"\x0").is_err());
    assert!(Escapable::new(r"\xG0").is_err());
    assert_eq!(Escapable::new(r"fred").unwrap().as_ref(), r"fred");
    assert_eq!(Escapable::new(r"\x00").unwrap().as_ref(), "\x00");
    assert_eq!(Escapable::new(r"\n").unwrap().as_ref(), "\n");
    assert_eq!(Escapable::new(r"\r").unwrap().as_ref(), "\r");
    assert_eq!(Escapable::new(r"\t").unwrap().as_ref(), "\t");
    assert_eq!(Escapable::new("\\\"").unwrap().as_ref(), "\"");
    assert_eq!(Escapable::new(r"\'").unwrap().as_ref(), "'");
    assert_eq!(Escapable::new(r"\0").unwrap().as_ref(), "\0");
    assert_eq!(Escapable::new(r"\u{20}").unwrap().as_ref(), " ");
    assert_eq!(Escapable::new(r"\u{2013}").unwrap().as_ref(), "\u{2013}");
    assert_eq!(
        Escapable::new(r"\u{10ffff}").unwrap().as_ref(),
        "\u{10ffff}"
    );
    assert!(Escapable::new(r"\u{110000}").is_err());
}

#[test]
fn rust_escape_test0() {
    let _e: Escapable = Escapable::new(r"fred").unwrap();
    assert!(Escapable::new(r"\").is_err());
    assert!(Escapable::new(r"\u").is_err());
    assert!(Escapable::new(r"\ua").is_err());
    assert!(Escapable::new(r"\z").is_err());
    assert!(Escapable::new(r"\x0").is_err());
    assert!(Escapable::new(r"\xG0").is_err());
    assert_eq!(Escapable::new(r"fred").unwrap().as_ref(), r"fred");
    assert_eq!(Escapable::new(r"\x00").unwrap().as_ref(), "\x00");
    assert_eq!(Escapable::new(r"\n").unwrap().as_ref(), "\n");
    assert_eq!(Escapable::new(r"\r").unwrap().as_ref(), "\r");
    assert_eq!(Escapable::new(r"\t").unwrap().as_ref(), "\t");
    assert_eq!(Escapable::new("\\\"").unwrap().as_ref(), "\"");
    assert_eq!(Escapable::new(r"\'").unwrap().as_ref(), "'");
    assert_eq!(Escapable::new(r"\0").unwrap().as_ref(), "\0");
    assert_eq!(Escapable::new(r"\u{20}").unwrap().as_ref(), " ");
    assert_eq!(Escapable::new(r"\u{2013}").unwrap().as_ref(), "\u{2013}");
    assert_eq!(
        Escapable::new(r"\u{10ffff}").unwrap().as_ref(),
        "\u{10ffff}"
    );
    assert!(Escapable::new(r"\u{110000}").is_err());
}

#[test]
fn each_escape_error() {
    assert_eq!(
        Escapable::new(r"\z").unwrap_err(),
        Error::BadEscape("bad escape '122'".to_string())
    );
    assert_eq!(
        Escapable::new("\\\u{e9}").unwrap_err(),
        Error::BadEscape("bad escape '195'".to_string())
    );
    assert_eq!(
        Escapable::new(r"\xG0").unwrap_err(),
        Error::BadHexDigit("hex escape requires hex digits".to_string())
    );
    assert_eq!(
        Escapable::new(r"\x80").unwrap_err(),
        Error::BadHexEscape("hex escape must be in range 0-0x7f".to_string())
    );
    assert_eq!(
        Escapable::new(r"\x0").unwrap_err(),
        Error::BadHexEscape("hex escape must be \\xXX".to_string())
    );
    assert_eq!(
        Escapable::new(r"\u123").unwrap_err(),
        Error::BadUnicode("\\u escape requires { to follow".to_string())
    );
    assert_eq!(
        Escapable::new(r"\u{1234567}").unwrap_err(),
        Error::BadUnicode("at most 6 hex digits".to_string())
    );
    assert_eq!(
        Escapable::new(r"\u{d800}").unwrap_err(),
        Error::BadUnicode("invalid unicode value".to_string())
    );
    assert_eq!(
        Escapable::new(r"ab\u{12").unwrap_err(),
        Error::EndOfStringInEscape(r"ab\u{12".to_string())
    );
    assert_eq!(Escapable::new(r"a\x41b\\").unwrap().as_ref(), "aAb\\");
}

#[test]
fn escape_by_character_set() {
    check_ok(escape("a>b", ESCAPE_PCDATA), None);
    check_ok(escape("a\n\r", ESCAPE_ATTR), Some("a&#xA;&#xD;"));
    check_ok(escape("a\n<", ESCAPE_PCDATA), Some("a\n&lt;"));
    check_ok(escape("", ESCAPE_ATTR), None);
}

#[test]
fn entities_without_the_map() {
    let e = Entities::xml();
    check_ok(e.replace_entities(false, "&amp;"), None);
    check_ok(e.replace_entities(false, "x&amp;&#65;y"), Some("x&amp;Ay"));
    check_ok(e.replace_entities(true, "a&amp"), None);
    check_ok(e.replace_entities(true, "&#1x2;"), None);
    check_ok(e.replace_entities(true, "&#x41;&#x1G;"), Some("A&#x1G;"));
}

#[test]
fn parts_of_the_escapes() {
    let chars: Vec<char> = "a<b>c".chars().collect();
    assert_eq!(
        escape_required(&chars, ESCAPE_ATTR, 3, 5),
        Some("a<b&gt;c".to_string())
    );
    assert_eq!(
        escape_required(&chars, ESCAPE_PCDATA, 0, 4),
        Some("a&lt;b>".to_string())
    );
    assert!(do_esc(ESCAPE_ATTR, 4));
    assert!(!do_esc(ESCAPE_PCDATA, 4));
    assert!(!do_esc(8, 4));

    let e = Entities::xml();
    let chars: Vec<char> = "x&lt;&#65;&zz;&#x3b1".chars().collect();
    let n = chars.len();
    assert_eq!(e.find_span(true, &chars, 0, n), (1, None, None));
    assert_eq!(e.find_span(true, &chars, 1, n), (5, Some("<"), None));
    assert_eq!(e.find_span(false, &chars, 1, n), (5, None, None));
    assert_eq!(e.find_span(true, &chars, 5, n), (10, None, Some('A')));
    assert_eq!(e.find_span(true, &chars, 10, n), (14, None, None));
    assert_eq!(e.find_span(true, &chars, 14, n), (n, None, None));
    assert_eq!(
        e.replace_entities_required(true, &chars, "<", 1, 5, n),
        Some("x<A&zz;&#x3b1".to_string())
    );
    let none = Entities::default();
    assert_eq!(none.replace_entities(true, "&lt;&#66;"), Some("&lt;B".to_string()));

    assert_eq!(hex_of_byte("r", '7'), Ok(7));
    assert_eq!(hex_of_byte("r", 'c'), Ok(12));
    assert_eq!(hex_of_byte("r", 'F'), Ok(15));
    assert_eq!(hex_of_byte("r", 'g'), Err(Error::BadHexDigit("r".to_string())));
    assert_eq!(Escapable::opt_unescape("plain"), Ok(None));
    assert_eq!(
        Escapable::opt_unescape(r"a\tb"),
        Ok(Some("a\tb".to_string()))
    );
    let chars: Vec<char> = r"ab\u{e9}".chars().collect();
    assert_eq!(
        Escapable::unescape(&chars, 2),
        Ok(Some("ab\u{e9}".to_string()))
    );
}
