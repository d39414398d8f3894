//! Small pieces of JSON text used in error details: quoted strings and
//! integers.

use vstd::prelude::*;

use crate::errors::{concat2, i64_text, int_text};

verus! {

/// Lower-case hexadecimal digit of a value below 16.
pub open spec fn hex_lower(d: u32) -> char {
    if d < 10 {
        (('0' as u32) + d) as char
    } else {
        (('a' as u32) + d - 10) as char
    }
}

/// How `serde_json` writes one character inside a string literal: `"` and
/// `\` and the control characters below U+0020 escaped (`\b`, `\t`,
/// `\n`, `\f`, `\r` by name, the others as `\u00XX`), every other
/// character as itself.
pub open spec fn json_escape(c: char) -> Seq<char> {
    if c == '"' {
        seq!['\\', '"']
    } else if c == '\\' {
        seq!['\\', '\\']
    } else if c == '\x08' {
        seq!['\\', 'b']
    } else if c == '\t' {
        seq!['\\', 't']
    } else if c == '\n' {
        seq!['\\', 'n']
    } else if c == '\x0c' {
        seq!['\\', 'f']
    } else if c == '\r' {
        seq!['\\', 'r']
    } else if (c as u32) < 0x20 {
        seq!['\\', 'u', '0', '0', hex_lower((c as u32) / 16), hex_lower((c as u32) % 16)]
    } else {
        seq![c]
    }
}

/// The characters of `s`, each written as [`json_escape`] writes it.
pub open spec fn json_escaped(s: Seq<char>) -> Seq<char>
    decreases s.len(),
{
    if s.len() == 0 {
        Seq::empty()
    } else {
        json_escaped(s.drop_last()) + json_escape(s.last())
    }
}

/// The JSON string literal of `s` as `serde_json` writes it: the escaped
/// characters between double quotes.
pub open spec fn json_quoted(s: Seq<char>) -> Seq<char> {
    seq!['"'] + json_escaped(s) + seq!['"']
}

/// `serde_json::to_string(s)`: the JSON string literal of `s`, quoted and
/// escaped as `format_escaped_str` does. Serializing a `str` does not fail.
#[verifier::external_body]
pub(crate) fn json_string(s: &str) -> (r: String)
    ensures
        r@ == json_quoted(s@),
{
    serde_json::to_string(s).unwrap_or_default()
}

/// `{"<key>":<quoted value>}`.
pub open spec fn object_with_string(key: Seq<char>, value: Seq<char>) -> Seq<char> {
    "{\""@ + key + "\":"@ + json_quoted(value) + "}"@
}

/// `{"<k1>":<v1>,"<k2>":<v2>}` with integer values.
pub open spec fn object_with_ints(k1: Seq<char>, v1: int, k2: Seq<char>, v2: int) -> Seq<char> {
    "{\""@ + k1 + "\":"@ + int_text(v1) + ",\""@ + k2 + "\":"@ + int_text(v2) + "}"@
}

/// `{"<key>":<value>}` with an integer value.
pub open spec fn object_with_int(key: Seq<char>, value: int) -> Seq<char> {
    "{\""@ + key + "\":"@ + int_text(value) + "}"@
}

/// JSON object with one string member: `{"<key>":"<value>"}`.
pub fn string_object(key: &str, value: &str) -> (r: String)
    ensures
        r@ == object_with_string(key@, value@),
{
    let a = concat2("{\"", key);
    let b = concat2(a.as_str(), "\":");
    let c = concat2(b.as_str(), json_string(value).as_str());
    concat2(c.as_str(), "}")
}

/// JSON object with two integer members: `{"<k1>":<v1>,"<k2>":<v2>}`.
pub fn int_pair_object(k1: &str, v1: i64, k2: &str, v2: i64) -> (r: String)
    ensures
        r@ == object_with_ints(k1@, v1 as int, k2@, v2 as int),
{
    let a = concat2("{\"", k1);
    let b = concat2(a.as_str(), "\":");
    let c = concat2(b.as_str(), i64_text(v1).as_str());
    let d = concat2(c.as_str(), ",\"");
    let e = concat2(d.as_str(), k2);
    let f = concat2(e.as_str(), "\":");
    let g = concat2(f.as_str(), i64_text(v2).as_str());
    concat2(g.as_str(), "}")
}

/// JSON object with one integer member: `{"<key>":<value>}`.
pub fn int_object(key: &str, value: i64) -> (r: String)
    ensures
        r@ == object_with_int(key@, value as int),
{
    let a = concat2("{\"", key);
    let b = concat2(a.as_str(), "\":");
    let c = concat2(b.as_str(), i64_text(value).as_str());
    concat2(c.as_str(), "}")
}

} // verus!
