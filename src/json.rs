//! JSON text: the escaping rule for string literals, and the calls into
//! serde_json that quote, unquote and take apart JSON text.
use vstd::prelude::*;

use crate::codec::{json_array_text, record_text, record_texts, Fields};

verus! {

#[verifier::external_type_specification]
#[verifier::external_body]
pub struct ExJsonError(serde_json::Error);

/// Lower-case hexadecimal digit of `n`, for `0 <= n < 16`.
pub open spec fn hex_digit(n: int) -> char {
    seq!['0', '1', '2', '3', '4', '5', '6', '7', '8', '9', 'a', 'b', 'c', 'd', 'e', 'f'][n]
}

/// How one character is written inside a JSON string literal: quote and
/// backslash are escaped, control characters take their short escape or a
/// `\u00xx` form, and every other character stands for itself.
pub open spec fn escape_char(c: char) -> Seq<char> {
    if c == '"' {
        seq!['\\', '"']
    } else if c == '\\' {
        seq!['\\', '\\']
    } else if c == '\u{8}' {
        seq!['\\', 'b']
    } else if c == '\t' {
        seq!['\\', 't']
    } else if c == '\n' {
        seq!['\\', 'n']
    } else if c == '\u{c}' {
        seq!['\\', 'f']
    } else if c == '\r' {
        seq!['\\', 'r']
    } else if (c as u32) < 0x20 {
        seq!['\\', 'u', '0', '0', hex_digit((c as u32) as int / 16), hex_digit((c as u32) as int % 16)]
    } else {
        seq![c]
    }
}

/// The escaped characters of `s`, without the surrounding quotes.
pub open spec fn escaped(s: Seq<char>) -> Seq<char>
    decreases s.len(),
{
    if s.len() == 0 {
        Seq::empty()
    } else {
        escaped(s.drop_last()) + escape_char(s.last())
    }
}

/// The compact JSON string literal of `s`.
pub open spec fn json_quoted(s: Seq<char>) -> Seq<char> {
    seq!['"'] + escaped(s) + seq!['"']
}

/// The string that the JSON string literal `t` denotes, if `t` is one.
pub uninterp spec fn json_string_value(t: Seq<char>) -> Option<Seq<char>>;

/// The members of the JSON object `t`, key and raw value text, in order of
/// key, if `t` is an object.
pub uninterp spec fn json_object_members(t: Seq<char>) -> Option<Seq<(Seq<char>, Seq<char>)>>;

/// The raw text of each element of the JSON array `t`, if `t` is an array.
pub uninterp spec fn json_array_items(t: Seq<char>) -> Option<Seq<Seq<char>>>;

/// Plain view of a list of key / raw text pairs.
pub open spec fn pairs_view(m: Seq<(String, String)>) -> Seq<(Seq<char>, Seq<char>)> {
    m.map_values(|p: (String, String)| (p.0@, p.1@))
}

/// Plain view of a list of strings.
pub open spec fn strings_view(v: Seq<String>) -> Seq<Seq<char>> {
    v.map_values(|s: String| s@)
}

pub open spec fn key_input() -> Seq<char> {
    seq!['i', 'n', 'p', 'u', 't']
}

pub open spec fn key_instruction() -> Seq<char> {
    seq!['i', 'n', 's', 't', 'r', 'u', 'c', 't', 'i', 'o', 'n']
}

pub open spec fn key_output() -> Seq<char> {
    seq!['o', 'u', 't', 'p', 'u', 't']
}

/// Relies on serde_json::to_string on a `str`: the compact string literal,
/// escaped as its `format_escaped_str_contents` does. A `str` is written
/// into a `Vec`, which cannot fail, so the result is always `Ok`.
#[verifier::external_body]
pub(crate) fn quote(s: &str) -> (r: Result<String, serde_json::Error>)
    ensures
        r is Ok,
        r matches Ok(t) ==> t@ == json_quoted(s@),
{
    serde_json::to_string(s)
}

/// Relies on serde_json::from_str into a `String`: reads one string literal;
/// from the compact literal of `s` (as `json_quoted` spells it) it reads `s`.
#[verifier::external_body]
pub(crate) fn unquote(t: &str) -> (r: Result<String, serde_json::Error>)
    ensures
        r matches Ok(v) ==> json_string_value(t@) == Some(v@),
        r is Err ==> json_string_value(t@) is None,
        r is Err ==> forall|s: Seq<char>| #[trigger] json_quoted(s) != t@,
        r matches Ok(v) ==> forall|s: Seq<char>| #[trigger] json_quoted(s) == t@ ==> v@ == s,
{
    serde_json::from_str::<String>(t)
}

/// Relies on serde_json::from_str into a `BTreeMap<String, Box<RawValue>>`:
/// each member of an object, with the exact text of its value, in key order
/// (a repeated key keeps its last value). On a record's compact object text
/// that is its three members, with their string literals as values.
#[verifier::external_body]
pub(crate) fn object_members(t: &str) -> (r: Result<Vec<(String, String)>, serde_json::Error>)
    ensures
        r matches Ok(m) ==> json_object_members(t@) == Some(pairs_view(m@)),
        r is Err ==> json_object_members(t@) is None,
        r is Err ==> forall|f: Fields| #[trigger] record_text(f) != t@,
        r matches Ok(m) ==> forall|f: Fields| #[trigger] record_text(f) == t@ ==> pairs_view(m@)
            == seq![
            (key_input(), json_quoted(f.1)),
            (key_instruction(), json_quoted(f.0)),
            (key_output(), json_quoted(f.2)),
        ],
{
    let m = serde_json::from_str::<
        std::collections::BTreeMap<String, Box<serde_json::value::RawValue>>,
    >(t)?;
    Ok(m.into_iter().map(|(k, v)| (k, v.get().to_string())).collect())
}

/// Relies on serde_json::from_str into a `Vec<Box<RawValue>>`: the exact
/// text of each element of an array, in order. On the compact array of
/// record object texts, those texts.
#[verifier::external_body]
pub(crate) fn array_items(t: &str) -> (r: Result<Vec<String>, serde_json::Error>)
    ensures
        r matches Ok(v) ==> json_array_items(t@) == Some(strings_view(v@)),
        r is Err ==> json_array_items(t@) is None,
        r is Err ==> forall|rs: Seq<Fields>| #[trigger] json_array_text(rs) != t@,
        r matches Ok(v) ==> forall|rs: Seq<Fields>| #[trigger] json_array_text(rs) == t@
            ==> strings_view(v@) == record_texts(rs),
{
    let v = serde_json::from_str::<Vec<Box<serde_json::value::RawValue>>>(t)?;
    Ok(v.into_iter().map(|e| e.get().to_string()).collect())
}

} // verus!
