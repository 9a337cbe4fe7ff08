//! JSON text. `serde_json` parses it and hands each number over as the text
//! it prints the number with; the library then reads the numbers whose text
//! is an integer as integers, and keeps the others as their text.
use vstd::prelude::*;
use crate::json::{read_numbers, read_numbers_of, Json, JsonV, StrMap};

verus! {

/// The values that `serde_json` parses JSON text into.
#[verifier::external_type_specification]
#[verifier::external_body]
pub struct ExJsonValue(serde_json::Value);

/// What `serde_json::from_str` makes of the text `s`: the value it parses,
/// with each number held by the text that `serde_json` prints it with, or
/// the message of its error.
pub uninterp spec fn json_text(s: Seq<char>) -> Result<JsonV, Seq<char>>;

/// Parses the text `s` with `serde_json::from_str` into a
/// `serde_json::Value` and converts that value into a [`Json`], each number
/// as its text (`Json::Real`). Claimed: the result is the value that
/// `json_text` names for `s`, or the error's message. What that value is,
/// for a given text, is `serde_json`'s grammar and is not stated here.
#[verifier::external_body]
pub fn parse_json_text(s: &str) -> (r: Result<Json, String>)
    ensures
        match json_text(s@) {
            Ok(v) => r matches Ok(j) && j@ == v,
            Err(m) => r matches Err(e) && e@ == m,
        },
{
    match serde_json::from_str::<serde_json::Value>(s) {
        Ok(v) => Ok(json_of_value(v)),
        Err(e) => Err(e.to_string()),
    }
}

/// The conversion in `parse_json_text`, variant by variant, kept apart
/// because it goes down into arrays and objects: a number becomes its text,
/// and the entries of an object are inserted one by one.
#[verifier::external_body]
fn json_of_value(v: serde_json::Value) -> Json {
    match v {
        serde_json::Value::Null => Json::Null,
        serde_json::Value::Bool(b) => Json::Bool(b),
        serde_json::Value::Number(n) => Json::Real(n.to_string()),
        serde_json::Value::String(s) => Json::Str(s),
        serde_json::Value::Array(a) => Json::Array(a.into_iter().map(json_of_value).collect()),
        serde_json::Value::Object(m) => Json::Object(m.into_iter().fold(StrMap::new(), |mut o, (k, x)| {
            o.insert(k, json_of_value(x));
            o
        })),
    }
}

/// The value that the JSON text `s` gives, with its integers read, or the
/// message of `serde_json`'s error.
pub fn read_json_text(s: &str) -> (r: Result<Json, String>)
    ensures
        match json_text(s@) {
            Ok(v) => r matches Ok(j) && j@ == read_numbers(v),
            Err(m) => r matches Err(e) && e@ == m,
        },
{
    match parse_json_text(s) {
        Ok(j) => Ok(read_numbers_of(&j)),
        Err(e) => Err(e),
    }
}

} // verus!
