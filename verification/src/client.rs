//! The registry client's decisions: which URL a fetch mode asks for, which
//! HTTP statuses count as success, and how the three failure kinds fold
//! into the one error the inline path reports.  The unverified shell only
//! performs the GET and the JSON decode; every string it sends and every
//! verdict on what came back is computed here.

use vstd::prelude::*;
use vstd::string::StringExecFns;
use crate::package::RawPackage;

verus! {

/// Which registry request an inline query asks for.
#[derive(Debug)]
pub enum FetchMode {
    /// The "most recently downloaded" summary endpoint; chosen for an
    /// empty query text.
    Trending,
    /// The search endpoint with the user's text; chosen for a non-empty
    /// query text.
    Search(String),
}

/// One failed registry fetch, by kind: transport trouble, a non-success
/// HTTP status, or a JSON body that did not decode.
#[derive(Debug)]
pub enum FetchFailure {
    Transport(String),
    Status(u16),
    Decode(String),
}

/// The single error the inline path reports: a diagnostic message, with
/// the failure kinds no longer distinguished.
#[derive(Debug)]
pub struct FetchError {
    pub message: String,
}

/// The decimal digit character for `d`.
pub open spec fn digit_char_spec(d: nat) -> char {
    if d == 0 {
        '0'
    } else if d == 1 {
        '1'
    } else if d == 2 {
        '2'
    } else if d == 3 {
        '3'
    } else if d == 4 {
        '4'
    } else if d == 5 {
        '5'
    } else if d == 6 {
        '6'
    } else if d == 7 {
        '7'
    } else if d == 8 {
        '8'
    } else {
        '9'
    }
}

/// The decimal writing of `n`, most significant digit first.
pub open spec fn decimal_of(n: nat) -> Seq<char>
    decreases n,
{
    if n < 10 {
        seq![digit_char_spec(n)]
    } else {
        decimal_of(n / 10).push(digit_char_spec(n % 10))
    }
}

/// The decimal digit character for `d`.
fn digit_char(d: u16) -> (c: char)
    requires
        d < 10,
    ensures
        c == digit_char_spec(d as nat),
{
    match d {
        0 => '0',
        1 => '1',
        2 => '2',
        3 => '3',
        4 => '4',
        5 => '5',
        6 => '6',
        7 => '7',
        8 => '8',
        _ => '9',
    }
}

/// Writes `n` in decimal.
pub fn u16_to_decimal(n: u16) -> (r: String)
    ensures
        r@ == decimal_of(n as nat),
    decreases n,
{
    if n < 10 {
        let mut s = String::new();
        s.push(digit_char(n));
        proof {
            assert(Seq::<char>::empty().push(digit_char_spec(n as nat)) =~= decimal_of(n as nat));
        }
        s
    } else {
        let mut s = u16_to_decimal(n / 10);
        s.push(digit_char(n % 10));
        s
    }
}

/// The diagnostic message that stands for one failure.
pub open spec fn failure_message(f: FetchFailure) -> Seq<char> {
    match f {
        FetchFailure::Transport(m) => "transport error: "@ + m@,
        FetchFailure::Status(code) => "upstream status "@ + decimal_of(code as nat),
        FetchFailure::Decode(m) => "decode error: "@ + m@,
    }
}

/// Folds any failure kind into the one inline-path error.
pub fn fold_failure(f: FetchFailure) -> (e: FetchError)
    ensures
        e.message@ == failure_message(f),
{
    let mut message: String;
    match f {
        FetchFailure::Transport(m) => {
            message = String::from_str("transport error: ");
            message.append(m.as_str());
        },
        FetchFailure::Status(code) => {
            message = String::from_str("upstream status ");
            let d = u16_to_decimal(code);
            message.append(d.as_str());
        },
        FetchFailure::Decode(m) => {
            message = String::from_str("decode error: ");
            message.append(m.as_str());
        },
    }
    FetchError { message }
}

/// The summary endpoint queried for an empty search text.
pub open spec fn summary_url() -> Seq<char> {
    "https://crates.io/api/v1/summary"@
}

/// What `encode_query_component` returns for a given text: its
/// `application/x-www-form-urlencoded` serialization.
pub uninterp spec fn query_encoded_of(s: Seq<char>) -> Seq<char>;

/// Relies on `url::form_urlencoded::byte_serialize`: the
/// `application/x-www-form-urlencoded` serialization of the text's UTF-8
/// bytes, a function of the text alone.
#[verifier::external_body]
fn encode_query_component(s: &str) -> (r: String)
    ensures
        r@ == query_encoded_of(s@),
{
    url::form_urlencoded::byte_serialize(s.as_bytes()).collect()
}

/// The search endpoint queried for the text `q`, with the fixed relevance
/// ordering and page size.
pub open spec fn search_url(q: Seq<char>) -> Seq<char> {
    "https://crates.io/api/v1/crates?q="@ + query_encoded_of(q) + "&sort=relevance&per_page=50"@
}

/// The URL one fetch mode asks the registry for.
pub fn fetch_url(mode: &FetchMode) -> (r: String)
    ensures
        match mode {
            FetchMode::Trending => r@ == summary_url(),
            FetchMode::Search(q) => r@ == search_url(q@),
        },
{
    match mode {
        FetchMode::Trending => String::from_str("https://crates.io/api/v1/summary"),
        FetchMode::Search(q) => {
            let mut u = String::from_str("https://crates.io/api/v1/crates?q=");
            let enc = encode_query_component(q.as_str());
            u.append(enc.as_str());
            u.append("&sort=relevance&per_page=50");
            proof {
                assert(u@ =~= search_url(q@));
            }
            u
        },
    }
}

/// Judges an HTTP status: a 2xx code is success, anything else is the
/// status failure carrying the code.
pub fn classify_status(code: u16) -> (r: Option<FetchFailure>)
    ensures
        (200 <= code < 300) <==> r is None,
        !(200 <= code < 300) ==> (r matches Some(f) && f matches FetchFailure::Status(c) && c
            == code),
{
    if 200 <= code && code < 300 {
        None
    } else {
        Some(FetchFailure::Status(code))
    }
}

/// The inline path's error policy: a fetched record list passes through
/// untouched, any failure folds into the one silent error.
pub fn inline_fetch_result(r: Result<Vec<RawPackage>, FetchFailure>) -> (out: Result<
    Vec<RawPackage>,
    FetchError,
>)
    ensures
        match r {
            Ok(v) => out matches Ok(w) && w == v,
            Err(f) => out matches Err(e) && e.message@ == failure_message(f),
        },
{
    match r {
        Ok(v) => Ok(v),
        Err(f) => Err(fold_failure(f)),
    }
}

} // verus!
