//! The strict JSON parser that validates and materialises repaired text,
//! the value it produces, and the conversions between text and characters.

use vstd::prelude::*;

verus! {

broadcast use vstd::std_specs::vec::axiom_vec_index_decreases;

#[verifier::external_type_specification]
#[verifier::external_body]
pub struct ExJsonValue(serde_json::Value);

#[verifier::external_type_specification]
#[verifier::external_body]
pub struct ExJsonError(serde_json::Error);

/// The mathematical value of a [`JsonValue`].
pub enum JsonData {
    Null,
    Bool(bool),
    Number(Seq<char>),
    Str(Seq<char>),
    Array(Seq<JsonData>),
    Object(Seq<(Seq<char>, JsonData)>),
}

/// A JSON value held as plain data: a number keeps its text, an object keeps
/// its members in the order in which they first occur.
#[derive(Debug, PartialEq)]
pub enum JsonValue {
    Null,
    Bool(bool),
    Number(String),
    Str(String),
    Array(Vec<JsonValue>),
    Object(Vec<(String, JsonValue)>),
}

pub open spec fn data_of(v: JsonValue) -> JsonData
    decreases v,
{
    match v {
        JsonValue::Null => JsonData::Null,
        JsonValue::Bool(b) => JsonData::Bool(b),
        JsonValue::Number(n) => JsonData::Number(n@),
        JsonValue::Str(s) => JsonData::Str(s@),
        JsonValue::Array(items) => JsonData::Array(
            Seq::new(
                items@.len(),
                |i: int|
                    if 0 <= i < items@.len() {
                        data_of(items@[i])
                    } else {
                        JsonData::Null
                    },
            ),
        ),
        JsonValue::Object(members) => JsonData::Object(
            Seq::new(
                members@.len(),
                |i: int|
                    if 0 <= i < members@.len() {
                        (members@[i].0@, data_of(members@[i].1))
                    } else {
                        (Seq::empty(), JsonData::Null)
                    },
            ),
        ),
    }
}

impl View for JsonValue {
    type V = JsonData;

    open spec fn view(&self) -> JsonData {
        data_of(*self)
    }
}

/// The strict parser's error, with its message.
#[derive(Debug)]
pub struct StrictError {
    pub error: serde_json::Error,
    pub message: String,
}

/// The strict parser accepts `text` as one JSON document.
pub uninterp spec fn strict_accepts(text: Seq<char>) -> bool;

/// The value that the strict parser reads from `text`.
pub uninterp spec fn strict_value(text: Seq<char>) -> JsonData;

/// The message of the strict parser's error for `text`.
pub uninterp spec fn strict_error_text(text: Seq<char>) -> Seq<char>;

/// Relies on `serde_json::from_str` (to a `serde_json::Value`) and on the
/// error's `Display`: it succeeds exactly on the texts it accepts; the value,
/// taken apart one node at a time with numbers as their text and members in
/// map order, and the error message depend on the text alone.
#[verifier::external_body]
pub(crate) fn strict_parse(text: &str) -> (r: Result<JsonValue, StrictError>)
    ensures
        r is Ok <==> strict_accepts(text@),
        r is Ok ==> r->Ok_0@ == strict_value(text@),
        r is Err ==> r->Err_0.message@ == strict_error_text(text@),
{
    match serde_json::from_str::<serde_json::Value>(text) {
        Ok(v) => Ok(json_value_from(v)),
        Err(error) => {
            let message = error.to_string();
            Err(StrictError { error, message })
        },
    }
}

/// Converts a `serde_json::Value` node by node; used by [`strict_parse`].
#[verifier::external_body]
fn json_value_from(v: serde_json::Value) -> JsonValue {
    match v {
        serde_json::Value::Null => JsonValue::Null,
        serde_json::Value::Bool(b) => JsonValue::Bool(b),
        serde_json::Value::Number(n) => JsonValue::Number(n.to_string()),
        serde_json::Value::String(s) => JsonValue::Str(s),
        serde_json::Value::Array(a) => JsonValue::Array(a.into_iter().map(json_value_from).collect()),
        serde_json::Value::Object(m) => JsonValue::Object(
            m.into_iter().map(|(k, x)| (k, json_value_from(x))).collect(),
        ),
    }
}

/// Relies on `serde_json::Value`'s constructors and on `str::parse` into a
/// `serde_json::Number`: builds the serde value of `v` node by node, or the
/// error for number text that serde_json does not read.
#[verifier::external_body]
pub(crate) fn serde_value_of(v: JsonValue) -> Result<serde_json::Value, serde_json::Error> {
    Ok(match v {
        JsonValue::Null => serde_json::Value::Null,
        JsonValue::Bool(b) => serde_json::Value::Bool(b),
        JsonValue::Number(n) => serde_json::Value::Number(n.parse()?),
        JsonValue::Str(s) => serde_json::Value::String(s),
        JsonValue::Array(items) => serde_json::Value::Array(
            items.into_iter().map(serde_value_of).collect::<Result<_, _>>()?,
        ),
        JsonValue::Object(members) => serde_json::Value::Object(
            members.into_iter().map(|(k, x)| serde_value_of(x).map(|y| (k, y))).collect::<Result<_, _>>()?,
        ),
    })
}

/// Relies on `str::chars` collected into a `Vec`: the characters of `s`, in
/// order.
#[verifier::external_body]
pub(crate) fn chars_of(s: &str) -> (r: Vec<char>)
    ensures
        r@ == s@,
{
    s.chars().collect()
}

/// Relies on collecting characters into a `String`: the string of `v`'s
/// characters, in order.
#[verifier::external_body]
pub(crate) fn string_of(v: &Vec<char>) -> (r: String)
    ensures
        r@ == v@,
{
    v.iter().collect()
}

} // verus!
