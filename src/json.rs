//! The calls into `serde_json` that the relay makes, each behind one trusted
//! item whose contract says only what serde_json's source shows. A frame's
//! parsed value never leaves these items: each takes the frame's text, so that
//! what it returns is named as a function of that text.
use vstd::prelude::*;

verus! {

/// Whether serde_json accepts `s` as one JSON text.
pub uninterp spec fn json_parses(s: Seq<char>) -> bool;

/// The compact JSON text that serde_json writes for the value it parses
/// from `s`.
pub uninterp spec fn json_compact(s: Seq<char>) -> Seq<char>;

/// The string held by the `"type"` member of the value that serde_json
/// parses from `s`, when it is an object with such a member holding a string.
pub uninterp spec fn json_type_tag(s: Seq<char>) -> Option<Seq<char>>;

/// serde_json's description of why `s` does not parse.
pub uninterp spec fn json_error_text(s: Seq<char>) -> Seq<char>;

pub open spec fn hex_digits() -> Seq<char> {
    seq!['0', '1', '2', '3', '4', '5', '6', '7', '8', '9', 'a', 'b', 'c', 'd', 'e', 'f']
}

/// How serde_json writes one character inside a string literal: `"` and `\`
/// and the controls backspace, tab, line feed, form feed and carriage return
/// get their short escapes, the other characters below U+0020 are written
/// `\u00XX` in lower-case hex, and every other character stands for itself.
pub open spec fn escape_char(c: char) -> Seq<char> {
    let n = c as u32;
    if n == 0x22 {
        seq!['\\', '"']
    } else if n == 0x5c {
        seq!['\\', '\\']
    } else if n == 0x08 {
        seq!['\\', 'b']
    } else if n == 0x09 {
        seq!['\\', 't']
    } else if n == 0x0a {
        seq!['\\', 'n']
    } else if n == 0x0c {
        seq!['\\', 'f']
    } else if n == 0x0d {
        seq!['\\', 'r']
    } else if n < 0x20 {
        seq!['\\', 'u', '0', '0', hex_digits()[(n / 16) as int], hex_digits()[(n % 16) as int]]
    } else {
        seq![c]
    }
}

/// The characters of `s`, each escaped.
pub open spec fn escaped(s: Seq<char>) -> Seq<char>
    decreases s.len(),
{
    if s.len() == 0 {
        Seq::empty()
    } else {
        escaped(s.drop_last()) + escape_char(s.last())
    }
}

/// The JSON string literal for `s`: a quote, the escaped characters, a quote.
pub open spec fn json_string_literal(s: Seq<char>) -> Seq<char> {
    seq!['"'] + escaped(s) + seq!['"']
}

/// Relies on `serde_json::from_str::<Value>`, which accepts exactly the JSON
/// texts, and on `serde_json::to_string` of the parsed `Value`, which writes
/// it compactly and cannot fail on a `Value` (its map keys are strings).
#[verifier::external_body]
pub(crate) fn compact_json(frame: &str) -> (r: Option<String>)
    ensures
        r is Some <==> json_parses(frame@),
        r matches Some(t) ==> t@ == json_compact(frame@),
{
    match serde_json::from_str::<serde_json::Value>(frame) {
        Ok(v) => serde_json::to_string(&v).ok(),
        Err(_) => None,
    }
}

/// Relies on `serde_json::Value::get` on the value that
/// `serde_json::from_str::<Value>` parses: the `"type"` member, when it
/// holds a string.
#[verifier::external_body]
pub(crate) fn type_tag(frame: &str) -> (r: Option<String>)
    ensures
        r matches Some(t) ==> json_type_tag(frame@) == Some(t@),
        r is None ==> json_type_tag(frame@) is None,
{
    match serde_json::from_str::<serde_json::Value>(frame) {
        Ok(v) => match v.get("type") {
            Some(serde_json::Value::String(s)) => Some(s.clone()),
            _ => None,
        },
        Err(_) => None,
    }
}

/// Relies on the `Display` impl of the error that
/// `serde_json::from_str::<Value>` returns: a description of why the frame
/// does not parse, made of the error and its line and column.
#[verifier::external_body]
pub(crate) fn parse_error_text(frame: &str) -> (r: Option<String>)
    ensures
        r is Some <==> !json_parses(frame@),
        r matches Some(t) ==> t@ == json_error_text(frame@),
{
    match serde_json::from_str::<serde_json::Value>(frame) {
        Ok(_) => None,
        Err(e) => Some(e.to_string()),
    }
}

/// Relies on `serde_json::to_string` on a `str`: the quoted, escaped string
/// literal (`format_escaped_str` and its `ESCAPE` table). Serialising a
/// `str` into memory cannot fail.
#[verifier::external_body]
pub(crate) fn string_literal(s: &str) -> (r: String)
    ensures
        r@ == json_string_literal(s@),
{
    serde_json::to_string(s).unwrap_or_default()
}

} // verus!
