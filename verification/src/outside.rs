//! The calls into `serde_json`. Nothing in this file is proved: each
//! function states what the call is taken to do, and each name stands for
//! what a call returns.

use vstd::prelude::*;
use crate::json::{JsonModel, JsonValue, Member, Number, NumberModel};

verus! {

/// `serde_json::Value`, which passes through this file and nowhere else:
/// what a call hands back is turned into a tree of the library at once.
#[verifier::external_type_specification]
#[verifier::external_body]
pub struct ExValue(serde_json::Value);

/// What `serde_json` reads at the start of `bytes`: the first JSON value,
/// after any whitespace, and the number of bytes up to its end; nothing
/// where the bytes do not start with a JSON value. A number, `true`,
/// `false` or `null` is only read where a delimiter, whitespace or the end
/// follows it.
pub uninterp spec fn json_prefix(bytes: Seq<u8>) -> Option<(JsonModel, nat)>;

/// The JSON text of a string, with its quotes and escapes, as `serde_json`
/// writes it.
pub uninterp spec fn string_text(s: Seq<char>) -> Option<Seq<char>>;

/// The JSON text of a number as `serde_json` writes it; nothing where the
/// decimal text of the number is not that of a JSON number.
pub uninterp spec fn number_text(n: NumberModel) -> Option<Seq<char>>;

/// The number that a `serde_json::Value` holds, told apart by
/// `Value::as_u64` and `Value::as_i64`; what is neither is kept as the text
/// that `Value`'s `Display` gives it. Nothing is claimed of the result.
#[verifier::external_body]
fn number_of(v: &serde_json::Value) -> Number {
    if let Some(n) = v.as_u64() {
        Number::PosInt(n)
    } else if let Some(n) = v.as_i64() {
        Number::NegInt(n)
    } else {
        Number::Float(v.to_string())
    }
}

/// A `serde_json::Value` as a tree of this library, variant by variant. An
/// object's members come in the order in which `serde_json::Map` hands them
/// out. Nothing is claimed of the result.
#[verifier::external_body]
fn tree_of(v: serde_json::Value) -> JsonValue {
    match v {
        serde_json::Value::Null => JsonValue::Null,
        serde_json::Value::Bool(b) => JsonValue::Bool(b),
        serde_json::Value::Number(_) => JsonValue::Number(number_of(&v)),
        serde_json::Value::String(s) => JsonValue::String(s),
        serde_json::Value::Array(a) => JsonValue::Array(a.into_iter().map(tree_of).collect()),
        serde_json::Value::Object(o) => JsonValue::Object(
            o.into_iter().map(|(key, v)| Member { key, value: tree_of(v) }).collect(),
        ),
    }
}

/// Reads one JSON value at the start of `bytes` with
/// `serde_json::StreamDeserializer::next`, and asks
/// `StreamDeserializer::byte_offset` where it ended. The contract gives the
/// result its name, [`json_prefix`], and claims nothing else: the same
/// bytes give the same value and the same offset.
#[verifier::external_body]
pub(crate) fn read_value(bytes: &[u8]) -> (r: Option<(JsonValue, usize)>)
    ensures
        match r {
            Some((v, n)) => json_prefix(bytes@) == Some((v@, n as nat)),
            None => json_prefix(bytes@) is None,
        },
{
    let mut stream = serde_json::Deserializer::from_slice(bytes).into_iter::<serde_json::Value>();
    match stream.next() {
        Some(Ok(v)) => Some((tree_of(v), stream.byte_offset())),
        _ => None,
    }
}

/// Writes a string as JSON text with `serde_json::to_string`. The contract
/// gives the result its name, [`string_text`], and claims nothing else.
#[verifier::external_body]
pub(crate) fn print_string(s: &str) -> (r: Option<String>)
    ensures
        match r {
            Some(t) => string_text(s@) == Some(t@),
            None => string_text(s@) is None,
        },
{
    serde_json::to_string(s).ok()
}

/// Writes a number as JSON text with `serde_json::to_string`, on the
/// `serde_json::Number` made from it: by `Number::from` for an integer, by
/// `str::parse` for decimal text, which fails where the text is no JSON
/// number. The contract gives the result its name, [`number_text`], and
/// claims nothing else.
#[verifier::external_body]
pub(crate) fn print_number(n: &Number) -> (r: Option<String>)
    ensures
        match r {
            Some(t) => number_text(n@) == Some(t@),
            None => number_text(n@) is None,
        },
{
    let number = match n {
        Number::PosInt(n) => Some(serde_json::Number::from(*n)),
        Number::NegInt(n) => Some(serde_json::Number::from(*n)),
        Number::Float(text) => text.parse::<serde_json::Number>().ok(),
    };
    number.and_then(|n| serde_json::to_string(&n).ok())
}

} // verus!
