//! Escaping of text for an HTML rendering context.
//!
//! Package names, version numbers and descriptions coming back from the
//! registry are embedded into HTML message bodies, so the five characters
//! HTML assigns meaning to must become character references.  Descriptions
//! additionally carry backtick-delimited code spans that must turn into
//! structural `<code>` elements rather than escaped literal backticks.

use vstd::prelude::*;
use vstd::string::StringExecFns;
use vstd::string::StrSliceExecFns;

verus! {

/// Relies on `String::push` of std: appends the given character to the end
/// of the string.
pub assume_specification[ String::push ](s: &mut String, c: char)
    ensures
        final(s)@ == old(s)@.push(c),
;

/// The text that stands for `c` in an HTML text context: the five
/// characters HTML assigns meaning to become character references, every
/// other character stands for itself.
pub open spec fn min_entity(c: char) -> Seq<char> {
    if c == '&' {
        seq!['&', 'a', 'm', 'p', ';']
    } else if c == '<' {
        seq!['&', 'l', 't', ';']
    } else if c == '>' {
        seq!['&', 'g', 't', ';']
    } else if c == '"' {
        seq!['&', 'q', 'u', 'o', 't', ';']
    } else if c == '\'' {
        seq!['&', '#', 'x', '2', '7', ';']
    } else {
        seq![c]
    }
}

/// HTML-escape of a whole text: each character replaced by its minimal
/// entity.
pub open spec fn escape_text(s: Seq<char>) -> Seq<char>
    decreases s.len(),
{
    if s.len() == 0 {
        Seq::empty()
    } else {
        min_entity(s[0]) + escape_text(s.drop_first())
    }
}

/// Escaping a text one character longer appends that character's entity.
pub proof fn lemma_escape_text_push(s: Seq<char>, c: char)
    ensures
        escape_text(s.push(c)) == escape_text(s) + min_entity(c),
    decreases s.len(),
{
    if s.len() == 0 {
        assert(s.push(c).drop_first() =~= Seq::<char>::empty());
        assert(s.push(c)[0] == c);
        assert(escape_text(s.push(c)) == min_entity(c) + escape_text(Seq::<char>::empty()));
        assert(min_entity(c) + Seq::<char>::empty() =~= Seq::<char>::empty() + min_entity(c));
    } else {
        assert(s.push(c).drop_first() =~= s.drop_first().push(c));
        lemma_escape_text_push(s.drop_first(), c);
        assert(min_entity(s[0]) + (escape_text(s.drop_first()) + min_entity(c)) =~= (min_entity(
            s[0],
        ) + escape_text(s.drop_first())) + min_entity(c));
    }
}

/// Appends the minimal entity of `c` to `out`.
fn push_entity(out: &mut String, c: char)
    ensures
        final(out)@ == old(out)@ + min_entity(c),
{
    match c {
        '&' => {
            proof {
                reveal_strlit("&amp;");
                assert("&amp;"@ =~= min_entity('&'));
            }
            out.append("&amp;");
        },
        '<' => {
            proof {
                reveal_strlit("&lt;");
                assert("&lt;"@ =~= min_entity('<'));
            }
            out.append("&lt;");
        },
        '>' => {
            proof {
                reveal_strlit("&gt;");
                assert("&gt;"@ =~= min_entity('>'));
            }
            out.append("&gt;");
        },
        '"' => {
            proof {
                reveal_strlit("&quot;");
                assert("&quot;"@ =~= min_entity('"'));
            }
            out.append("&quot;");
        },
        '\'' => {
            proof {
                reveal_strlit("&#x27;");
                assert("&#x27;"@ =~= min_entity('\''));
            }
            out.append("&#x27;");
        },
        _ => {
            proof {
                assert(old(out)@.push(c) =~= old(out)@ + min_entity(c));
            }
            out.push(c);
        },
    }
}

/// Whether `c` has the Unicode `White_Space` property, the set that
/// `char::is_whitespace` of std documents.
pub open spec fn is_ws(c: char) -> bool {
    let n = c as u32;
    n == 0x09 || n == 0x0A || n == 0x0B || n == 0x0C || n == 0x0D || n == 0x20 || n == 0x85 || n
        == 0xA0 || n == 0x1680 || (0x2000 <= n && n <= 0x200A) || n == 0x2028 || n == 0x2029 || n
        == 0x202F || n == 0x205F || n == 0x3000
}

/// Whether `c` has the Unicode `White_Space` property.
pub fn is_whitespace_char(c: char) -> (r: bool)
    ensures
        r == is_ws(c),
{
    let n = c as u32;
    n == 0x09 || n == 0x0A || n == 0x0B || n == 0x0C || n == 0x0D || n == 0x20 || n == 0x85 || n
        == 0xA0 || n == 0x1680 || (0x2000 <= n && n <= 0x200A) || n == 0x2028 || n == 0x2029 || n
        == 0x202F || n == 0x205F || n == 0x3000
}

/// One step of whitespace collapsing.  `started` says whether a word
/// character has been written already, `pending` whether a separating space
/// is owed before the next word character.
pub open spec fn collapse_ws_rec(s: Seq<char>, started: bool, pending: bool) -> Seq<char>
    decreases s.len(),
{
    if s.len() == 0 {
        Seq::empty()
    } else if is_ws(s[0]) {
        collapse_ws_rec(s.drop_first(), started, started)
    } else {
        (if pending {
            seq![' ']
        } else {
            Seq::empty()
        }) + seq![s[0]] + collapse_ws_rec(s.drop_first(), true, false)
    }
}

/// Whitespace collapsing: leading and trailing whitespace dropped, every
/// internal whitespace run replaced by one space.
pub open spec fn collapse_ws(s: Seq<char>) -> Seq<char> {
    collapse_ws_rec(s, false, false)
}

/// Collapses whitespace: splits `s` at whitespace runs and joins the words
/// with single spaces.
pub fn collapse_whitespace(s: &str) -> (r: String)
    ensures
        r@ == collapse_ws(s@),
{
    let n: usize = s.unicode_len();
    let mut out = String::new();
    let mut started: bool = false;
    let mut pending: bool = false;
    let mut i: usize = 0;
    proof {
        assert(s@.skip(0) =~= s@);
        assert(Seq::<char>::empty() + collapse_ws(s@) =~= collapse_ws(s@));
    }
    while i < n
        invariant
            n == s@.len(),
            i <= n,
            collapse_ws(s@) == out@ + collapse_ws_rec(s@.skip(i as int), started, pending),
        decreases n - i,
    {
        let ghost prev = out@;
        let c = s.get_char(i);
        proof {
            assert(s@.skip(i as int)[0] == s@[i as int]);
            assert(s@.skip(i as int).drop_first() =~= s@.skip(i + 1 as int));
        }
        if is_whitespace_char(c) {
            pending = started;
        } else {
            if pending {
                out.push(' ');
            }
            out.push(c);
            proof {
                let tail = collapse_ws_rec(s@.skip(i + 1 as int), true, false);
                if pending {
                    assert(out@ =~= prev + (seq![' '] + seq![c]));
                    assert(prev + ((seq![' '] + seq![c]) + tail) =~= out@ + tail);
                } else {
                    assert(out@ =~= prev + (Seq::<char>::empty() + seq![c]));
                    assert(prev + ((Seq::<char>::empty() + seq![c]) + tail) =~= out@ + tail);
                }
            }
            started = true;
            pending = false;
        }
        i += 1;
    }
    proof {
        assert(s@.skip(n as int) =~= Seq::<char>::empty());
        assert(out@ + Seq::<char>::empty() =~= out@);
    }
    out
}

/// Escapes `s` for an HTML text context: `&`, `<`, `>`, `"` and `'` become
/// character references, every other character is kept as it is.
pub fn encode_minimal(s: &str) -> (r: String)
    ensures
        r@ == escape_text(s@),
{
    let n: usize = s.unicode_len();
    let mut out = String::new();
    let mut i: usize = 0;
    while i < n
        invariant
            n == s@.len(),
            i <= n,
            out@ == escape_text(s@.take(i as int)),
        decreases n - i,
    {
        let c = s.get_char(i);
        push_entity(&mut out, c);
        proof {
            lemma_escape_text_push(s@.take(i as int), c);
            assert(s@.take(i as int).push(c) =~= s@.take(i + 1 as int));
        }
        i += 1;
    }
    proof {
        assert(s@.take(n as int) =~= s@);
    }
    out
}

/// Whether `c` is an ASCII letter or digit.
pub open spec fn is_ascii_alnum(c: char) -> bool {
    let n = c as u32;
    (0x30 <= n && n <= 0x39) || (0x41 <= n && n <= 0x5A) || (0x61 <= n && n <= 0x7A)
}

/// The upper-case hexadecimal digit character for `d`.
pub open spec fn hex_digit_spec(d: nat) -> char {
    if d == 0 {
        '0'
    } else if d == 1 {
        '1'
    } else if d == 2 {
        '2'
    } else if d == 3 {
        '3'
    } else if d == 4 {
        '4'
    } else if d == 5 {
        '5'
    } else if d == 6 {
        '6'
    } else if d == 7 {
        '7'
    } else if d == 8 {
        '8'
    } else if d == 9 {
        '9'
    } else if d == 10 {
        'A'
    } else if d == 11 {
        'B'
    } else if d == 12 {
        'C'
    } else if d == 13 {
        'D'
    } else if d == 14 {
        'E'
    } else {
        'F'
    }
}

/// The text that stands for `c` in an HTML attribute value: the five
/// minimal entities, and beyond them a hexadecimal reference for every
/// other non-alphanumeric character below 0x100; characters above pass
/// through.
pub open spec fn attr_entity(c: char) -> Seq<char> {
    if c == '&' || c == '<' || c == '>' || c == '"' || c == '\'' {
        min_entity(c)
    } else {
        let n = c as u32;
        if n < 256 && (n > 127 || !is_ascii_alnum(c)) {
            seq![
                '&',
                '#',
                'x',
                hex_digit_spec((n / 16) as nat),
                hex_digit_spec((n % 16) as nat),
                ';',
            ]
        } else {
            seq![c]
        }
    }
}

/// Attribute-escape of a whole text.
pub open spec fn escape_attr(s: Seq<char>) -> Seq<char>
    decreases s.len(),
{
    if s.len() == 0 {
        Seq::empty()
    } else {
        attr_entity(s[0]) + escape_attr(s.drop_first())
    }
}

/// Escaping an attribute text one character longer appends that
/// character's entity.
pub proof fn lemma_escape_attr_push(s: Seq<char>, c: char)
    ensures
        escape_attr(s.push(c)) == escape_attr(s) + attr_entity(c),
    decreases s.len(),
{
    if s.len() == 0 {
        assert(s.push(c).drop_first() =~= Seq::<char>::empty());
        assert(s.push(c)[0] == c);
        assert(escape_attr(s.push(c)) == attr_entity(c) + escape_attr(Seq::<char>::empty()));
        assert(attr_entity(c) + Seq::<char>::empty() =~= Seq::<char>::empty() + attr_entity(c));
    } else {
        assert(s.push(c).drop_first() =~= s.drop_first().push(c));
        lemma_escape_attr_push(s.drop_first(), c);
        assert(attr_entity(s[0]) + (escape_attr(s.drop_first()) + attr_entity(c)) =~= (attr_entity(
            s[0],
        ) + escape_attr(s.drop_first())) + attr_entity(c));
    }
}

/// The upper-case hexadecimal digit character for `d`.
fn hex_char(d: u32) -> (c: char)
    requires
        d < 16,
    ensures
        c == hex_digit_spec(d as nat),
{
    match d {
        0 => '0',
        1 => '1',
        2 => '2',
        3 => '3',
        4 => '4',
        5 => '5',
        6 => '6',
        7 => '7',
        8 => '8',
        9 => '9',
        10 => 'A',
        11 => 'B',
        12 => 'C',
        13 => 'D',
        14 => 'E',
        _ => 'F',
    }
}

/// Appends the attribute entity of `c` to `out`.
fn push_attr_entity(out: &mut String, c: char)
    ensures
        final(out)@ == old(out)@ + attr_entity(c),
{
    if c == '&' || c == '<' || c == '>' || c == '"' || c == '\'' {
        push_entity(out, c);
    } else {
        let n = c as u32;
        let alnum = (0x30 <= n && n <= 0x39) || (0x41 <= n && n <= 0x5A) || (0x61 <= n && n
            <= 0x7A);
        if n < 256 && (n > 127 || !alnum) {
            let ghost prev = out@;
            out.push('&');
            out.push('#');
            out.push('x');
            out.push(hex_char(n / 16));
            out.push(hex_char(n % 16));
            out.push(';');
            proof {
                assert(out@ =~= prev + attr_entity(c));
            }
        } else {
            proof {
                assert(old(out)@.push(c) =~= old(out)@ + attr_entity(c));
            }
            out.push(c);
        }
    }
}

/// Escapes `s` for an HTML attribute value: besides the five minimal
/// entities, every other non-alphanumeric character below 0x100 becomes a
/// hexadecimal reference.
pub fn encode_attribute(s: &str) -> (r: String)
    ensures
        r@ == escape_attr(s@),
{
    let n: usize = s.unicode_len();
    let mut out = String::new();
    let mut i: usize = 0;
    while i < n
        invariant
            n == s@.len(),
            i <= n,
            out@ == escape_attr(s@.take(i as int)),
        decreases n - i,
    {
        let c = s.get_char(i);
        push_attr_entity(&mut out, c);
        proof {
            lemma_escape_attr_push(s@.take(i as int), c);
            assert(s@.take(i as int).push(c) =~= s@.take(i + 1 as int));
        }
        i += 1;
    }
    proof {
        assert(s@.take(n as int) =~= s@);
    }
    out
}

/// The text with its leading whitespace dropped.
pub open spec fn drop_leading_ws(s: Seq<char>) -> Seq<char>
    decreases s.len(),
{
    if s.len() == 0 {
        s
    } else if is_ws(s[0]) {
        drop_leading_ws(s.drop_first())
    } else {
        s
    }
}

/// The text with its trailing whitespace dropped.
pub open spec fn drop_trailing_ws(s: Seq<char>) -> Seq<char>
    decreases s.len(),
{
    if s.len() == 0 {
        s
    } else if is_ws(s.last()) {
        drop_trailing_ws(s.drop_last())
    } else {
        s
    }
}

/// The text with whitespace dropped at both ends, as `str::trim` of std
/// computes it.
pub open spec fn trim_spec(s: Seq<char>) -> Seq<char> {
    drop_trailing_ws(drop_leading_ws(s))
}

/// A whitespace prefix does not change the leading-whitespace drop.
proof fn lemma_drop_leading_at(s: Seq<char>, a: int)
    requires
        0 <= a <= s.len(),
        forall|k: int| 0 <= k < a ==> is_ws(s[k]),
        a < s.len() ==> !is_ws(s[a]),
    ensures
        drop_leading_ws(s) == s.skip(a),
    decreases a,
{
    if a == 0 {
        assert(s.skip(0) =~= s);
        if s.len() > 0 {
            assert(!is_ws(s[0]));
        }
    } else {
        assert(is_ws(s[0]));
        assert(s.len() > 0);
        lemma_drop_leading_at(s.drop_first(), a - 1);
        assert(s.drop_first().skip(a - 1) =~= s.skip(a));
    }
}

/// A whitespace suffix does not change the trailing-whitespace drop.
proof fn lemma_drop_trailing_at(s: Seq<char>, b: int)
    requires
        0 <= b <= s.len(),
        forall|k: int| b <= k < s.len() ==> is_ws(s[k]),
        b > 0 ==> !is_ws(s[b - 1]),
    ensures
        drop_trailing_ws(s) == s.take(b),
    decreases s.len() - b,
{
    if b == s.len() {
        assert(s.take(b) =~= s);
        if s.len() > 0 {
            assert(!is_ws(s.last()));
        }
    } else {
        assert(is_ws(s.last()));
        lemma_drop_trailing_at(s.drop_last(), b);
        assert(s.drop_last().take(b) =~= s.take(b));
    }
}

/// The position of the first non-whitespace character at or after `from`.
fn first_non_ws(s: &str, from: usize, n: usize) -> (r: usize)
    requires
        from <= n,
        n == s@.len(),
    ensures
        from <= r <= n,
        forall|k: int| from <= k < r ==> is_ws(s@[k]),
        r < n ==> !is_ws(s@[r as int]),
    decreases n - from,
{
    if from == n {
        from
    } else if is_whitespace_char(s.get_char(from)) {
        first_non_ws(s, from + 1, n)
    } else {
        from
    }
}

/// The position after the last non-whitespace character before `upto`.
fn after_last_non_ws(s: &str, upto: usize) -> (r: usize)
    requires
        upto <= s@.len(),
    ensures
        r <= upto,
        forall|k: int| r <= k < upto ==> is_ws(s@[k]),
        r > 0 ==> !is_ws(s@[r - 1]),
    decreases upto,
{
    if upto == 0 {
        0
    } else if is_whitespace_char(s.get_char(upto - 1)) {
        after_last_non_ws(s, upto - 1)
    } else {
        upto
    }
}

/// Drops whitespace at both ends of `s`.
pub fn trim_ws(s: &str) -> (r: String)
    ensures
        r@ == trim_spec(s@),
{
    let n: usize = s.unicode_len();
    let a = first_non_ws(s, 0, n);
    if a == n {
        proof {
            lemma_drop_leading_at(s@, n as int);
            assert(s@.skip(n as int) =~= Seq::<char>::empty());
            lemma_drop_trailing_at(Seq::<char>::empty(), 0);
            assert(Seq::<char>::empty().take(0) =~= Seq::<char>::empty());
        }
        String::new()
    } else {
        let b = after_last_non_ws(s, n);
        proof {
            if b <= a {
                assert(is_ws(s@[a as int]));
            }
            lemma_drop_leading_at(s@, a as int);
            let t = s@.skip(a as int);
            assert(forall|k: int| b - a <= k < t.len() ==> is_ws(#[trigger] t[k]));
            assert(t[b - a - 1] == s@[b - 1]);
            lemma_drop_trailing_at(t, b - a);
            assert(t.take(b - a) =~= s@.subrange(a as int, b as int));
        }
        let piece = s.substring_char(a, b);
        String::from_str(piece)
    }
}

/// The opening tag of a rendered code span.
pub open spec fn code_open() -> Seq<char> {
    seq!['<', 'c', 'o', 'd', 'e', '>']
}

/// The closing tag of a rendered code span.
pub open spec fn code_close() -> Seq<char> {
    seq!['<', '/', 'c', 'o', 'd', 'e', '>']
}

/// HTML rendering of a text with backtick-delimited code spans: a backtick
/// with a later matching backtick delimits a span whose inside is escaped
/// and wrapped in a `<code>` element; prose between spans is escaped; a
/// backtick with no later match is kept as literal escaped text.
pub open spec fn code_spans(s: Seq<char>) -> Seq<char>
    decreases s.len(),
    via code_spans_decreases
{
    if s.len() == 0 {
        Seq::empty()
    } else if s[0] == '`' {
        match s.drop_first().index_of_first('`') {
            Some(j) => code_open() + escape_text(s.subrange(1, 1 + j)) + code_close()
                + code_spans(s.skip(j + 2)),
            None => escape_text(s),
        }
    } else {
        min_entity(s[0]) + code_spans(s.drop_first())
    }
}

#[via_fn]
proof fn code_spans_decreases(s: Seq<char>) {
    if s.len() > 0 && s[0] == '`' {
        s.drop_first().index_of_first_ensures('`');
    }
}

/// A sequence whose position `j` holds a backtick, with none before it,
/// has `j` as the index of its first backtick.
proof fn lemma_first_tick_at(s: Seq<char>, j: int)
    requires
        0 <= j < s.len(),
        s[j] == '`',
        forall|k: int| 0 <= k < j ==> s[k] != '`',
    ensures
        s.index_of_first('`') == Some(j),
{
    s.index_of_first_ensures('`');
    match s.index_of_first('`') {
        Some(m) => {
            if m < j {
                assert(s[m] != '`');
            } else if m > j {
                assert(s[j] != '`');
            }
        },
        None => {
            assert(!s.contains('`'));
            assert(s[j] == '`');
        },
    }
}

/// A sequence without a backtick has no first backtick.
proof fn lemma_no_tick(s: Seq<char>)
    requires
        forall|k: int| 0 <= k < s.len() ==> s[k] != '`',
    ensures
        s.index_of_first('`') == None::<int>,
{
    s.index_of_first_ensures('`');
    match s.index_of_first('`') {
        Some(m) => {
            assert(s[m] != '`');
        },
        None => {},
    }
}

/// A text without backticks renders as plain escaped prose.
pub proof fn lemma_no_ticks_escapes(s: Seq<char>)
    requires
        forall|k: int| 0 <= k < s.len() ==> s[k] != '`',
    ensures
        code_spans(s) == escape_text(s),
    decreases s.len(),
{
    if s.len() > 0 {
        assert(s[0] != '`');
        assert(forall|k: int| 0 <= k < s.drop_first().len() ==> s.drop_first()[k] == s[k + 1]);
        lemma_no_ticks_escapes(s.drop_first());
    }
}

/// A backtick-delimited span whose inside holds no backtick, preceded by
/// prose without backticks, renders as a structural `<code>` element with
/// escaped contents, never as escaped literal backticks.
pub proof fn lemma_code_span_renders(a: Seq<char>, inner: Seq<char>, b: Seq<char>)
    requires
        forall|k: int| 0 <= k < a.len() ==> a[k] != '`',
        forall|k: int| 0 <= k < inner.len() ==> inner[k] != '`',
    ensures
        code_spans(a + seq!['`'] + inner + seq!['`'] + b) == escape_text(a) + code_open()
            + escape_text(inner) + code_close() + code_spans(b),
    decreases a.len(),
{
    let s = a + seq!['`'] + inner + seq!['`'] + b;
    if a.len() == 0 {
        assert(s[0] == '`');
        let t = s.drop_first();
        assert(t =~= inner + seq!['`'] + b);
        assert(t[inner.len() as int] == '`');
        assert(forall|k: int| 0 <= k < inner.len() ==> t[k] == inner[k]);
        lemma_first_tick_at(t, inner.len() as int);
        let j = inner.len() as int;
        assert(s.subrange(1, 1 + j) =~= inner);
        assert(s.skip(j + 2) =~= b);
        assert(code_spans(s) == code_open() + escape_text(inner) + code_close() + code_spans(b));
        assert(escape_text(a) + code_open() + escape_text(inner) + code_close() + code_spans(b)
            =~= code_open() + escape_text(inner) + code_close() + code_spans(b));
    } else {
        assert(s[0] == a[0]);
        assert(a[0] != '`');
        assert(s.drop_first() =~= a.drop_first() + seq!['`'] + inner + seq!['`'] + b);
        lemma_code_span_renders(a.drop_first(), inner, b);
        assert(escape_text(a) == min_entity(a[0]) + escape_text(a.drop_first()));
        assert(min_entity(a[0]) + (escape_text(a.drop_first()) + code_open() + escape_text(inner)
            + code_close() + code_spans(b)) =~= escape_text(a) + code_open() + escape_text(inner)
            + code_close() + code_spans(b));
    }
}

/// A backtick with no later matching backtick is literal text: the whole
/// remainder is escaped, the backtick kept as it is.
pub proof fn lemma_unmatched_tick_is_literal(a: Seq<char>, b: Seq<char>)
    requires
        forall|k: int| 0 <= k < a.len() ==> a[k] != '`',
        forall|k: int| 0 <= k < b.len() ==> b[k] != '`',
    ensures
        code_spans(a + seq!['`'] + b) == escape_text(a + seq!['`'] + b),
    decreases a.len(),
{
    let s = a + seq!['`'] + b;
    if a.len() == 0 {
        assert(s[0] == '`');
        let t = s.drop_first();
        assert(t =~= b);
        lemma_no_tick(t);
    } else {
        assert(s[0] == a[0]);
        assert(a[0] != '`');
        assert(s.drop_first() =~= a.drop_first() + seq!['`'] + b);
        lemma_unmatched_tick_is_literal(a.drop_first(), b);
        assert(escape_text(s) == min_entity(s[0]) + escape_text(s.drop_first()));
    }
}

/// Whether `p` is a prefix of `s`.
pub open spec fn has_prefix(s: Seq<char>, p: Seq<char>) -> bool {
    p.len() <= s.len() && s.take(p.len() as int) == p
}

/// Reading an escaped text back: each minimal entity becomes its
/// character, everything else stands for itself.
pub open spec fn unescape_text(s: Seq<char>) -> Seq<char>
    decreases s.len(),
{
    if s.len() == 0 {
        Seq::empty()
    } else if has_prefix(s, min_entity('&')) {
        seq!['&'] + unescape_text(s.skip(5))
    } else if has_prefix(s, min_entity('<')) {
        seq!['<'] + unescape_text(s.skip(4))
    } else if has_prefix(s, min_entity('>')) {
        seq!['>'] + unescape_text(s.skip(4))
    } else if has_prefix(s, min_entity('"')) {
        seq!['"'] + unescape_text(s.skip(6))
    } else if has_prefix(s, min_entity('\'')) {
        seq!['\''] + unescape_text(s.skip(6))
    } else {
        seq![s[0]] + unescape_text(s.skip(1))
    }
}

/// Escaping round-trips: reading an escaped text back gives the text, so
/// escaping loses nothing and never double-escapes.
pub proof fn lemma_escape_round_trips(s: Seq<char>)
    ensures
        unescape_text(escape_text(s)) == s,
    decreases s.len(),
{
    if s.len() == 0 {
        assert(unescape_text(escape_text(s)) =~= s);
    } else {
        let c = s[0];
        let rest = s.drop_first();
        let es = escape_text(s);
        assert(es == min_entity(c) + escape_text(rest));
        lemma_escape_round_trips(rest);
        if c == '&' {
            assert(es.take(5) =~= min_entity('&'));
            assert(es.skip(5) =~= escape_text(rest));
            assert(seq!['&'] + rest =~= s);
        } else if c == '<' {
            assert(es[1] == 'l');
            assert(!has_prefix(es, min_entity('&'))) by {
                if has_prefix(es, min_entity('&')) {
                    assert(es.take(5)[1] == 'a');
                }
            }
            assert(es.take(4) =~= min_entity('<'));
            assert(es.skip(4) =~= escape_text(rest));
            assert(seq!['<'] + rest =~= s);
        } else if c == '>' {
            assert(es[1] == 'g');
            assert(!has_prefix(es, min_entity('&'))) by {
                if has_prefix(es, min_entity('&')) {
                    assert(es.take(5)[1] == 'a');
                }
            }
            assert(!has_prefix(es, min_entity('<'))) by {
                if has_prefix(es, min_entity('<')) {
                    assert(es.take(4)[1] == 'l');
                }
            }
            assert(es.take(4) =~= min_entity('>'));
            assert(es.skip(4) =~= escape_text(rest));
            assert(seq!['>'] + rest =~= s);
        } else if c == '"' {
            assert(es[1] == 'q');
            assert(!has_prefix(es, min_entity('&'))) by {
                if has_prefix(es, min_entity('&')) {
                    assert(es.take(5)[1] == 'a');
                }
            }
            assert(!has_prefix(es, min_entity('<'))) by {
                if has_prefix(es, min_entity('<')) {
                    assert(es.take(4)[1] == 'l');
                }
            }
            assert(!has_prefix(es, min_entity('>'))) by {
                if has_prefix(es, min_entity('>')) {
                    assert(es.take(4)[1] == 'g');
                }
            }
            assert(es.take(6) =~= min_entity('"'));
            assert(es.skip(6) =~= escape_text(rest));
            assert(seq!['"'] + rest =~= s);
        } else if c == '\'' {
            assert(es[1] == '#');
            assert(!has_prefix(es, min_entity('&'))) by {
                if has_prefix(es, min_entity('&')) {
                    assert(es.take(5)[1] == 'a');
                }
            }
            assert(!has_prefix(es, min_entity('<'))) by {
                if has_prefix(es, min_entity('<')) {
                    assert(es.take(4)[1] == 'l');
                }
            }
            assert(!has_prefix(es, min_entity('>'))) by {
                if has_prefix(es, min_entity('>')) {
                    assert(es.take(4)[1] == 'g');
                }
            }
            assert(!has_prefix(es, min_entity('"'))) by {
                if has_prefix(es, min_entity('"')) {
                    assert(es.take(6)[1] == 'q');
                }
            }
            assert(es.take(6) =~= min_entity('\''));
            assert(es.skip(6) =~= escape_text(rest));
            assert(seq!['\''] + rest =~= s);
        } else {
            assert(es[0] == c);
            assert(!has_prefix(es, min_entity('&'))) by {
                if has_prefix(es, min_entity('&')) {
                    assert(es.take(5)[0] == '&');
                }
            }
            assert(!has_prefix(es, min_entity('<'))) by {
                if has_prefix(es, min_entity('<')) {
                    assert(es.take(4)[0] == '&');
                }
            }
            assert(!has_prefix(es, min_entity('>'))) by {
                if has_prefix(es, min_entity('>')) {
                    assert(es.take(4)[0] == '&');
                }
            }
            assert(!has_prefix(es, min_entity('"'))) by {
                if has_prefix(es, min_entity('"')) {
                    assert(es.take(6)[0] == '&');
                }
            }
            assert(!has_prefix(es, min_entity('\''))) by {
                if has_prefix(es, min_entity('\'')) {
                    assert(es.take(6)[0] == '&');
                }
            }
            assert(es.skip(1) =~= escape_text(rest));
            assert(seq![c] + rest =~= s);
        }
    }
}

/// The position of the first backtick of `s` at or after `from`, if any.
fn find_tick(s: &str, from: usize, n: usize) -> (r: Option<usize>)
    requires
        from <= n,
        n == s@.len(),
    ensures
        match r {
            Some(j) => from <= j < n && s@[j as int] == '`' && (forall|k: int|
                from <= k < j ==> s@[k] != '`'),
            None => forall|k: int| from <= k < n ==> s@[k] != '`',
        },
    decreases n - from,
{
    if from == n {
        None
    } else if s.get_char(from) == '`' {
        Some(from)
    } else {
        find_tick(s, from + 1, n)
    }
}

/// Renders `s` with backtick-delimited code spans as structural `<code>`
/// elements and everything else HTML-escaped; an unmatched backtick is
/// literal text.
pub fn encode_with_code(out: &mut String, s: &str)
    ensures
        final(out)@ == old(out)@ + code_spans(s@),
{
    let n: usize = s.unicode_len();
    let mut r = String::new();
    let mut i: usize = 0;
    proof {
        assert(s@.skip(0) =~= s@);
        assert(Seq::<char>::empty() + code_spans(s@) =~= code_spans(s@));
    }
    while i < n
        invariant
            n == s@.len(),
            i <= n,
            code_spans(s@) == r@ + code_spans(s@.skip(i as int)),
        decreases n - i,
    {
        let ghost prev = r@;
        let ghost rest = s@.skip(i as int);
        let c = s.get_char(i);
        proof {
            assert(rest[0] == s@[i as int]);
            assert(rest.drop_first() =~= s@.skip(i + 1 as int));
        }
        if c == '`' {
            match find_tick(s, i + 1, n) {
                Some(j) => {
                    proof {
                        assert(forall|k: int|
                            0 <= k < j - i - 1 ==> rest.drop_first()[k] == s@[i + 1 + k]);
                        lemma_first_tick_at(rest.drop_first(), j - i - 1);
                        assert(rest.subrange(1, j - i as int) =~= s@.subrange(i + 1, j as int));
                        assert(rest.skip(j - i + 1) =~= s@.skip(j + 1 as int));
                    }
                    let inner = s.substring_char(i + 1, j);
                    let esc = encode_minimal(inner);
                    proof {
                        reveal_strlit("<code>");
                        reveal_strlit("</code>");
                        assert("<code>"@ =~= code_open());
                        assert("</code>"@ =~= code_close());
                    }
                    r.append("<code>");
                    r.append(esc.as_str());
                    r.append("</code>");
                    proof {
                        let tail = code_spans(s@.skip(j + 1 as int));
                        assert(r@ =~= prev + ((code_open() + escape_text(s@.subrange(i + 1, j as int))) + code_close()));
                        assert(prev + (((code_open() + escape_text(s@.subrange(i + 1, j as int))) + code_close()) + tail) =~= r@ + tail);
                    }
                    i = j + 1;
                },
                None => {
                    proof {
                        lemma_no_tick(rest.drop_first());
                        assert(rest =~= s@.subrange(i as int, n as int));
                    }
                    let lit = s.substring_char(i, n);
                    let esc = encode_minimal(lit);
                    r.append(esc.as_str());
                    proof {
                        assert(s@.skip(n as int) =~= Seq::<char>::empty());
                        assert(r@ + code_spans(s@.skip(n as int)) =~= prev + code_spans(rest));
                    }
                    i = n;
                },
            }
        } else {
            push_entity(&mut r, c);
            proof {
                let tail = code_spans(s@.skip(i + 1 as int));
                assert(prev + (min_entity(c) + tail) =~= r@ + tail);
            }
            i += 1;
        }
    }
    proof {
        assert(s@.skip(n as int) =~= Seq::<char>::empty());
        assert(r@ + Seq::<char>::empty() =~= r@);
    }
    out.append(r.as_str());
}

} // verus!
