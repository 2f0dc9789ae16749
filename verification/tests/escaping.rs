use cratesio_bot::escape::{
    collapse_whitespace, encode_attribute, encode_minimal, encode_with_code, trim_ws,
};
use itertools::Itertools;

fn with_code(s: &str) -> String {
    let mut out = String::new();
    encode_with_code(&mut out, s);
    out
}

#[test]
fn minimal_escape_matches_reference_encoder() {
    for s in [
        "",
        "plain text",
        "<em>Hej!</em>",
        "a&b\"c'd",
        "x < y && y > z",
        "unicode: héllo wörld ✓",
        "&amp; already escaped",
    ] {
        assert_eq!(encode_minimal(s), htmlescape::encode_minimal(s));
    }
}

#[test]
fn minimal_escape_round_trips_through_reference_decoder() {
    for s in ["a<b>c&d\"e'f", "`code` & <prose>", "plain"] {
        assert_eq!(htmlescape::decode_html(&encode_minimal(s)).unwrap(), s);
    }
}

#[test]
fn minimal_escape_exact_values() {
    assert_eq!(encode_minimal("<em>"), "&lt;em&gt;");
    assert_eq!(encode_minimal("a&b"), "a&amp;b");
    assert_eq!(encode_minimal("\"q\" 'a'"), "&quot;q&quot; &#x27;a&#x27;");
}

#[test]
fn attribute_escape_matches_reference_encoder() {
    for s in [
        "",
        "plain",
        "\"No\", he said.",
        "https://example.invalid/path?a=1&b=2",
        "space here",
        "héllo",
        "beyond latin-1: čas ☃",
    ] {
        assert_eq!(encode_attribute(s), htmlescape::encode_attribute(s));
    }
}

#[test]
fn attribute_escape_keeps_characters_beyond_latin1() {
    assert_eq!(encode_attribute("č"), "č");
    assert_eq!(encode_attribute("é"), "&#xE9;");
}

#[test]
fn attribute_escape_exact_values() {
    assert_eq!(
        encode_attribute("\"No\", he said."),
        "&quot;No&quot;&#x2C;&#x20;he&#x20;said&#x2E;"
    );
    assert_eq!(encode_attribute("a-b"), "a&#x2D;b");
}

#[test]
fn collapse_matches_split_whitespace_join() {
    for s in [
        "",
        "   ",
        "one",
        "  leading",
        "trailing   ",
        "a  b\tc\nd",
        "line one\nline two\r\nline three",
        "non\u{a0}breaking\u{2003}spaces",
    ] {
        assert_eq!(collapse_whitespace(s), s.split_whitespace().join(" "));
    }
}

#[test]
fn trim_matches_std_trim() {
    for s in ["", "  ", "a", " a ", "\t a b \n", "\u{a0}x\u{a0}"] {
        assert_eq!(trim_ws(s), s.trim());
    }
}

#[test]
fn code_span_becomes_code_element() {
    assert_eq!(with_code("use `foo` now"), "use <code>foo</code> now");
    assert_eq!(with_code("`x`"), "<code>x</code>");
    assert_eq!(with_code("``"), "<code></code>");
    assert_eq!(with_code("`a` and `b`"), "<code>a</code> and <code>b</code>");
}

#[test]
fn prose_is_escaped_code_contents_too() {
    assert_eq!(
        with_code("a<b `x&y` c>d"),
        "a&lt;b <code>x&amp;y</code> c&gt;d"
    );
}

#[test]
fn unmatched_backtick_stays_literal() {
    assert_eq!(with_code("a`b"), "a`b");
    assert_eq!(with_code("`"), "`");
    assert_eq!(with_code("`a` leftover `tail"), "<code>a</code> leftover `tail");
    assert_eq!(with_code("odd ` tick <&>"), "odd ` tick &lt;&amp;&gt;");
}

#[test]
fn appends_to_existing_message() {
    let mut out = String::from("head:");
    encode_with_code(&mut out, "`c`");
    assert_eq!(out, "head:<code>c</code>");
}
