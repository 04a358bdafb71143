//! Reading fields of JSON documents (through serde_json).
use vstd::prelude::*;

verus! {

/// serde_json's error message when `text` is not a JSON document (`None` when it is).
pub uninterp spec fn json_parse_error(text: Seq<char>) -> Option<Seq<char>>;

/// The string at JSON pointer `pointer` in the document `text`, if that is a
/// string. It names the result of a chain of three serde_json calls (parse
/// with `from_str`, look up with `Value::pointer`, read with `Value::as_str`),
/// each of which depends on its inputs alone.
pub uninterp spec fn json_str_at(text: Seq<char>, pointer: Seq<char>) -> Option<Seq<char>>;

/// The unsigned integer at JSON pointer `pointer` in `text`, if that is a
/// `u64`: the result of the chain `from_str`, `Value::pointer`, `Value::as_u64`.
pub uninterp spec fn json_u64_at(text: Seq<char>, pointer: Seq<char>) -> Option<u64>;

/// The boolean at JSON pointer `pointer` in `text`, if that is a boolean:
/// the result of the chain `from_str`, `Value::pointer`, `Value::as_bool`.
pub uninterp spec fn json_bool_at(text: Seq<char>, pointer: Seq<char>) -> Option<bool>;

pub open spec fn opt_string_view(o: Option<String>) -> Option<Seq<char>> {
    match o {
        Some(s) => Some(s@),
        None => None,
    }
}

/// `serde_json::from_str::<Value>`: the parse error's `Display` text, or
/// `None` when `text` parses. The contract claims only that the answer is a
/// function of `text`.
#[verifier::external_body]
pub(crate) fn json_error_of(text: &str) -> (r: Option<String>)
    ensures
        opt_string_view(r) == json_parse_error(text@),
{
    match serde_json::from_str::<serde_json::Value>(text) {
        Ok(_) => None,
        Err(e) => Some(e.to_string()),
    }
}

/// A chain of three serde_json calls: `from_str::<Value>`, then
/// `Value::pointer`, then `Value::as_str`. The contract claims only that the
/// string found is a function of `text` and `pointer` (named `json_str_at`).
#[verifier::external_body]
pub(crate) fn json_str(text: &str, pointer: &str) -> (r: Option<String>)
    ensures
        opt_string_view(r) == json_str_at(text@, pointer@),
{
    let v = serde_json::from_str::<serde_json::Value>(text).ok()?;
    v.pointer(pointer).and_then(serde_json::Value::as_str).map(String::from)
}

/// A chain of three serde_json calls: `from_str::<Value>`, then
/// `Value::pointer`, then `Value::as_u64`. The contract claims only that the
/// number found is a function of `text` and `pointer` (named `json_u64_at`).
#[verifier::external_body]
pub(crate) fn json_u64(text: &str, pointer: &str) -> (r: Option<u64>)
    ensures
        r == json_u64_at(text@, pointer@),
{
    let v = serde_json::from_str::<serde_json::Value>(text).ok()?;
    v.pointer(pointer).and_then(serde_json::Value::as_u64)
}

/// A chain of three serde_json calls: `from_str::<Value>`, then
/// `Value::pointer`, then `Value::as_bool`. The contract claims only that the
/// flag found is a function of `text` and `pointer` (named `json_bool_at`).
#[verifier::external_body]
pub(crate) fn json_bool(text: &str, pointer: &str) -> (r: Option<bool>)
    ensures
        r == json_bool_at(text@, pointer@),
{
    let v = serde_json::from_str::<serde_json::Value>(text).ok()?;
    v.pointer(pointer).and_then(serde_json::Value::as_bool)
}

/// The text of the number at JSON pointer `pointer` in `text`, as
/// serde_json writes it, if that is a number. It names the result of a chain
/// of serde_json calls (`from_str`, `Value::pointer`, `Value::as_number`, and
/// `Display` for `Number`), each of which depends on its inputs alone.
pub uninterp spec fn json_number_text_at(text: Seq<char>, pointer: Seq<char>) -> Option<Seq<char>>;

/// A chain of serde_json calls: `from_str::<Value>`, then `Value::pointer`,
/// then `Value::as_number`, then the number's `to_string()`. The contract
/// claims only that the text is a function of `text` and `pointer` (named
/// `json_number_text_at`).
#[verifier::external_body]
pub(crate) fn json_number_text(text: &str, pointer: &str) -> (r: Option<String>)
    ensures
        opt_string_view(r) == json_number_text_at(text@, pointer@),
{
    let v = serde_json::from_str::<serde_json::Value>(text).ok()?;
    v.pointer(pointer).and_then(serde_json::Value::as_number).map(ToString::to_string)
}

/// The JSON text serde_json writes for the string `s`: `s` quoted, with the
/// characters JSON requires escaped. It names the result of serde_json's
/// `Display` for `Value::String`, which depends on `s` alone.
pub uninterp spec fn json_string_text(s: Seq<char>) -> Seq<char>;

/// `Value::String(s)` written out with serde_json's `Display`. The contract
/// claims only that the text is a function of `s` (named `json_string_text`).
#[verifier::external_body]
pub(crate) fn json_string(s: &str) -> (r: String)
    ensures
        r@ == json_string_text(s@),
{
    serde_json::Value::String(String::from(s)).to_string()
}

} // verus!
