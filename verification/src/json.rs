//! The JSON documents that pass through the relay, as `serde_json` holds them.
//!
//! A `serde_json::Value` is opaque to the verifier. Contracts speak of it through
//! three names: the members of a top-level object, each as its compact text; the
//! compact text of the whole document; and the document that a sequence of
//! bytes spells. What `serde_json` writes for a string is stated in full.

use vstd::prelude::*;

verus! {

#[verifier::external_type_specification]
#[verifier::external_body]
pub struct ExJsonValue(serde_json::Value);

#[verifier::external_type_specification]
#[verifier::external_body]
pub struct ExJsonError(serde_json::Error);

/// The top-level members of `v` when it is a JSON object: each key mapped to the
/// compact text of its value. Empty for every other kind of value.
pub uninterp spec fn json_members(v: serde_json::Value) -> Map<Seq<char>, Seq<char>>;

/// The compact text of `v`: what its `Display` writes.
pub uninterp spec fn json_text(v: serde_json::Value) -> Seq<char>;

/// `serde_json::Value::get` with a string key: the member of that name when `v`
/// is an object that has it, nothing otherwise.
#[verifier::external_body]
pub(crate) fn value_get<'a>(v: &'a serde_json::Value, key: &str) -> (r: Option<&'a serde_json::Value>)
    ensures
        r is Some <==> json_members(*v).dom().contains(key@),
        r matches Some(m) ==> json_text(*m) == json_members(*v)[key@],
{
    v.get(key)
}

/// `to_string` on a `serde_json::Value`, which goes through its `Display`: the
/// compact serialization of `v`. It is written into a `String`, where no write
/// fails, so the call returns.
#[verifier::external_body]
pub(crate) fn value_text(v: &serde_json::Value) -> (r: String)
    ensures
        r@ == json_text(*v),
{
    v.to_string()
}

/// The lower-case hexadecimal digit for `n`, which is below 16.
pub open spec fn hex_digit(n: int) -> char {
    seq!['0', '1', '2', '3', '4', '5', '6', '7', '8', '9', 'a', 'b', 'c', 'd', 'e', 'f'][n]
}

/// How one character stands inside a JSON string: the quote, the backslash and
/// the control characters below U+0020 are escaped, every other character
/// stands for itself.
pub open spec fn escaped_char(c: char) -> Seq<char> {
    if c == '"' {
        seq!['\\', '"']
    } else if c == '\\' {
        seq!['\\', '\\']
    } else if c == '\u{8}' {
        seq!['\\', 'b']
    } else if c == '\u{c}' {
        seq!['\\', 'f']
    } else if c == '\n' {
        seq!['\\', 'n']
    } else if c == '\r' {
        seq!['\\', 'r']
    } else if c == '\t' {
        seq!['\\', 't']
    } else if (c as int) < 0x20 {
        seq!['\\', 'u', '0', '0', hex_digit((c as int) / 16), hex_digit((c as int) % 16)]
    } else {
        seq![c]
    }
}

/// The characters of `s`, each as it stands inside a JSON string.
pub open spec fn escaped(s: Seq<char>) -> Seq<char>
    decreases s.len(),
{
    if s.len() == 0 {
        Seq::empty()
    } else {
        escaped_char(s[0]) + escaped(s.drop_first())
    }
}

/// The JSON string that holds `s`: its escaped characters between two quotes.
pub open spec fn json_string_literal(s: Seq<char>) -> Seq<char> {
    seq!['"'] + escaped(s) + seq!['"']
}

/// `serde_json::Value::from` on a string slice: the JSON string value that holds
/// `s`. Its compact text is the string literal for `s`, with the escapes that the
/// serializer writes.
#[verifier::external_body]
pub(crate) fn string_value(s: &str) -> (v: serde_json::Value)
    ensures
        json_text(v) == json_string_literal(s@),
{
    serde_json::Value::from(s)
}

/// The document that `bytes` spell, where they are one JSON text and nothing
/// more: what `serde_json::from_slice` reads from them.
pub uninterp spec fn parsed_json(bytes: Seq<u8>) -> Option<serde_json::Value>;

/// `serde_json::from_slice` into a `serde_json::Value`: the document that the
/// bytes spell, or the parser's error where they are not JSON.
#[verifier::external_body]
pub(crate) fn parse_value(bytes: &[u8]) -> (r: Result<serde_json::Value, serde_json::Error>)
    ensures
        match r {
            Ok(document) => parsed_json(bytes@) == Some(document),
            Err(_) => parsed_json(bytes@) is None,
        },
{
    serde_json::from_slice::<serde_json::Value>(bytes)
}

/// The compact text of the member `key` of `v`, where `v` is an object that has
/// such a member.
pub fn member_text(v: &serde_json::Value, key: &str) -> (r: Option<String>)
    ensures
        match r {
            Some(text) => json_members(*v).dom().contains(key@) && text@ == json_members(*v)[key@],
            None => !json_members(*v).dom().contains(key@),
        },
{
    match value_get(v, key) {
        Some(member) => Some(value_text(member)),
        None => None,
    }
}

/// The JSON string literal for `s`.
pub fn string_literal(s: &str) -> (r: String)
    ensures
        r@ == json_string_literal(s@),
{
    let value = string_value(s);
    value_text(&value)
}

} // verus!
