//! The summarizer client's compute side: encoding the request body and
//! decoding the response.
//!
//! The request body is the JSON object `{"text": <abstract>}`, encoded by
//! verified code. The response body is parsed by `serde_json` behind one
//! trusted wrapper; what the wrapper reports is mapped to the pipeline's
//! error taxonomy by verified code.

use vstd::prelude::*;
use crate::errors::GistError;
use crate::strutil::chars_of;
use crate::strutil::string_of_chars;

verus! {

/// Whether `body` parses as a JSON value. A function of the body text
/// alone.
pub uninterp spec fn json_ok(body: Seq<char>) -> bool;

/// The string under `key` in the JSON value that `body` parses to: `None`
/// where the value is not an object, lacks the key, or holds a non-string
/// there. A function of the two texts alone.
pub uninterp spec fn json_str_field(body: Seq<char>, key: Seq<char>) -> Option<Seq<char>>;

/// What one look into a JSON response body found.
enum FieldLookup {
    /// The body did not parse as JSON; carries the parser's diagnostic.
    Invalid(String),
    /// The body parsed, but holds no string under the key.
    Missing,
    /// The string under the key, verbatim.
    Found(String),
}

/// Relies on `serde_json`: `from_str` to parse the body, `Value`'s index
/// by `&str` (`Null` where the value is no object or lacks the key), and
/// `Value::as_str` (`Some` exactly for a JSON string). Each computes from
/// its arguments alone; `json_ok` names whether the body parses,
/// `json_str_field` the string found under the key.
#[verifier::external_body]
fn lookup_str_field(body: &str, key: &str) -> (r: FieldLookup)
    ensures
        (r is Invalid) == !json_ok(body@),
        json_ok(body@) ==> ((r is Missing) == (json_str_field(body@, key@) is None)),
        r matches FieldLookup::Found(s) ==> json_str_field(body@, key@) == Some(s@),
{
    let v: serde_json::Value = match serde_json::from_str(body) {
        Ok(v) => v,
        Err(e) => return FieldLookup::Invalid(e.to_string()),
    };
    match v[key].as_str() {
        Some(s) => FieldLookup::Found(s.to_string()),
        None => FieldLookup::Missing,
    }
}

/// The field of the endpoint's response that carries the summary.
pub open spec fn summary_key() -> Seq<char> {
    "summary"@
}

/// Summary decoding: the `summary` string field of the endpoint's JSON
/// response body, verbatim. A body that is not JSON fails as a fetch
/// failure, as the transport decoder reported it; a JSON body without a
/// string under `summary` fails with `SummaryNotFound`.
pub fn parse_summary(body: &str) -> (r: Result<String, GistError>)
    ensures
        !json_ok(body@) ==> (r matches Err(e) && e is FetchError),
        json_ok(body@) && json_str_field(body@, summary_key()) is None ==> (r matches Err(e)
            && e is SummaryNotFound),
        json_ok(body@) && json_str_field(body@, summary_key()) is Some ==> (r matches Ok(s)
            && s@ == json_str_field(body@, summary_key())->Some_0),
{
    match lookup_str_field(body, "summary") {
        FieldLookup::Invalid(m) => Err(GistError::FetchError(m)),
        FieldLookup::Missing => Err(GistError::SummaryNotFound),
        FieldLookup::Found(s) => Ok(s),
    }
}

/// The lower-case hexadecimal digit for `n`.
pub open spec fn hex_digit(n: int) -> char {
    if n == 0 { '0' } else if n == 1 { '1' } else if n == 2 { '2' } else if n == 3 { '3' }
    else if n == 4 { '4' } else if n == 5 { '5' } else if n == 6 { '6' } else if n == 7 { '7' }
    else if n == 8 { '8' } else if n == 9 { '9' } else if n == 10 { 'a' } else if n == 11 { 'b' }
    else if n == 12 { 'c' } else if n == 13 { 'd' } else if n == 14 { 'e' } else { 'f' }
}

/// One character of a JSON string body: quote and backslash escaped, the
/// five control characters with short escapes as those, the other control
/// characters as `\u00..` with lower-case hexadecimal digits, everything
/// else verbatim.
pub open spec fn json_escaped_char(c: char) -> Seq<char> {
    if c == '"' { seq!['\\', '"'] }
    else if c == '\\' { seq!['\\', '\\'] }
    else if c == '\u{08}' { seq!['\\', 'b'] }
    else if c == '\t' { seq!['\\', 't'] }
    else if c == '\n' { seq!['\\', 'n'] }
    else if c == '\u{0C}' { seq!['\\', 'f'] }
    else if c == '\r' { seq!['\\', 'r'] }
    else if (c as int) < 0x20 {
        seq!['\\', 'u', '0', '0', hex_digit((c as int) / 16), hex_digit((c as int) % 16)]
    }
    else { seq![c] }
}

/// `s` escaped character by character for a JSON string body.
pub open spec fn json_escaped(s: Seq<char>) -> Seq<char>
    decreases s.len(),
{
    if s.len() == 0 {
        Seq::empty()
    } else {
        json_escaped(s.drop_last()) + json_escaped_char(s.last())
    }
}

/// The request body sent to the summarization endpoint: the JSON object
/// `{"text": <text>}` with the text escaped as a JSON string.
pub open spec fn summary_request(text: Seq<char>) -> Seq<char> {
    seq!['{', '"', 't', 'e', 'x', 't', '"', ':', '"'] + json_escaped(text) + seq!['"', '}']
}

/// The lower-case hexadecimal digit for `n`.
fn hex_digit_exec(n: u32) -> (c: char)
    requires
        n < 16,
    ensures
        c == hex_digit(n as int),
{
    if n == 0 { '0' } else if n == 1 { '1' } else if n == 2 { '2' } else if n == 3 { '3' }
    else if n == 4 { '4' } else if n == 5 { '5' } else if n == 6 { '6' } else if n == 7 { '7' }
    else if n == 8 { '8' } else if n == 9 { '9' } else if n == 10 { 'a' } else if n == 11 { 'b' }
    else if n == 12 { 'c' } else if n == 13 { 'd' } else if n == 14 { 'e' } else { 'f' }
}

/// Appends the JSON escape of one character.
fn push_escaped(out: &mut Vec<char>, c: char)
    ensures
        final(out)@ == old(out)@ + json_escaped_char(c),
{
    let ghost base = out@;
    if c == '"' {
        out.push('\\');
        out.push('"');
    } else if c == '\\' {
        out.push('\\');
        out.push('\\');
    } else if c == '\u{08}' {
        out.push('\\');
        out.push('b');
    } else if c == '\t' {
        out.push('\\');
        out.push('t');
    } else if c == '\n' {
        out.push('\\');
        out.push('n');
    } else if c == '\u{0C}' {
        out.push('\\');
        out.push('f');
    } else if c == '\r' {
        out.push('\\');
        out.push('r');
    } else {
        let n: u32 = c as u32;
        if n < 0x20 {
            out.push('\\');
            out.push('u');
            out.push('0');
            out.push('0');
            out.push(hex_digit_exec(n / 16));
            out.push(hex_digit_exec(n % 16));
        } else {
            out.push(c);
        }
    }
    proof {
        assert(out@ =~= base + json_escaped_char(c));
    }
}

/// Request encoding: the JSON object `{"text": <text>}`, as the
/// summarization endpoint expects it.
pub fn encode_summary_request(text: &str) -> (r: String)
    ensures
        r@ == summary_request(text@),
{
    let chars = chars_of(text);
    let mut out: Vec<char> = Vec::new();
    out.push('{');
    out.push('"');
    out.push('t');
    out.push('e');
    out.push('x');
    out.push('t');
    out.push('"');
    out.push(':');
    out.push('"');
    let ghost head = seq!['{', '"', 't', 'e', 'x', 't', '"', ':', '"'];
    proof {
        assert(out@ =~= head);
    }
    let mut i: usize = 0;
    while i < chars.len()
        invariant
            chars@ == text@,
            i <= chars.len(),
            out@ == head + json_escaped(text@.take(i as int)),
        decreases chars.len() - i,
    {
        let c = chars[i];
        push_escaped(&mut out, c);
        proof {
            assert(text@.take(i + 1).drop_last() =~= text@.take(i as int));
            assert(text@.take(i + 1).last() == c);
            assert(out@ =~= head + json_escaped(text@.take(i + 1)));
        }
        i = i + 1;
    }
    out.push('"');
    out.push('}');
    proof {
        assert(text@.take(chars@.len() as int) =~= text@);
        assert(out@ =~= summary_request(text@));
    }
    string_of_chars(&out)
}

} // verus!
