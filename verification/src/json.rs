//! JSON documents, read, held and written by `serde_json`.
//!
//! `serde_json` does the work; this file says what is taken on trust about it.
//! A `serde_json::Value` is opaque to the verifier. `json_of` names the
//! document that a value holds, and every function below states what it does
//! in terms of that document. The contracts are those of `serde_json` built
//! with `preserve_order`, where an object keeps its members in the order in
//! which they were inserted.

use vstd::prelude::*;

verus! {

/// A JSON document.
pub enum Json {
    Null,
    Bool(bool),
    /// A number held as an integer.
    Int(int),
    /// Any other number, by the bits of its binary64 form.
    Real(u64),
    Text(Seq<char>),
    Array(Seq<Json>),
    /// The members in their order, each key once.
    Object(Seq<(Seq<char>, Json)>),
}

/// The value of the first member under `key`.
pub open spec fn member_of(members: Seq<(Seq<char>, Json)>, key: Seq<char>) -> Option<Json>
    decreases members.len(),
{
    if members.len() == 0 {
        None
    } else if members[0].0 == key {
        Some(members[0].1)
    } else {
        member_of(members.drop_first(), key)
    }
}

impl Json {
    /// The member under `key`, where the document is an object that has one.
    pub open spec fn member(self, key: Seq<char>) -> Option<Json> {
        match self {
            Json::Object(members) => member_of(members, key),
            _ => None,
        }
    }

    /// The text, where the document is a string.
    pub open spec fn text(self) -> Option<Seq<char>> {
        match self {
            Json::Text(text) => Some(text),
            _ => None,
        }
    }

    /// The number, where the document is an integer that 64 signed bits hold.
    pub open spec fn integer(self) -> Option<i64> {
        match self {
            Json::Int(n) => if i64::MIN <= n <= i64::MAX {
                Some(n as i64)
            } else {
                None
            },
            _ => None,
        }
    }

    /// The items, where the document is an array.
    pub open spec fn items(self) -> Option<Seq<Json>> {
        match self {
            Json::Array(items) => Some(items),
            _ => None,
        }
    }
}

#[verifier::external_type_specification]
#[verifier::external_body]
pub struct ExValue(serde_json::Value);

#[verifier::external_type_specification]
#[verifier::external_body]
pub struct ExError(serde_json::Error);

/// The document that a `serde_json::Value` holds.
pub uninterp spec fn json_of(value: serde_json::Value) -> Json;

/// The document that `serde_json::from_str` reads from `text`, or nothing
/// where it reports an error.
pub uninterp spec fn json_parse(text: Seq<char>) -> Option<Json>;

/// The text that `serde_json::to_string_pretty` writes for a document, or
/// nothing where it reports an error.
pub uninterp spec fn json_pretty(document: Json) -> Option<Seq<char>>;

/// The documents that a run of values holds, one by one.
pub open spec fn jsons_of(values: Seq<serde_json::Value>) -> Seq<Json> {
    values.map_values(|v: serde_json::Value| json_of(v))
}

/// The members that a run of pairs holds, one by one.
pub open spec fn members_of(pairs: Seq<(String, serde_json::Value)>) -> Seq<(Seq<char>, Json)> {
    pairs.map_values(|p: (String, serde_json::Value)| (p.0@, json_of(p.1)))
}

/// Calls `serde_json::from_str` for a `Value`.
///
/// Not proved: that the value read holds `json_parse` of the text, that is,
/// that the document depends on the text alone; and that the empty text is an
/// error.
#[verifier::external_body]
pub(crate) fn parse_json(text: &str) -> (parsed: Result<serde_json::Value, serde_json::Error>)
    ensures
        match parsed {
            Ok(value) => json_parse(text@) == Some(json_of(value)),
            Err(_) => json_parse(text@) is None,
        },
        text@.len() == 0 ==> parsed is Err,
{
    serde_json::from_str::<serde_json::Value>(text)
}

/// Calls `serde_json::to_string_pretty` on a `Value`.
///
/// Not proved: that the outcome is `json_pretty` of the document that the
/// value holds, that is, that the text written, and whether any is written,
/// depends on the document alone.
#[verifier::external_body]
pub(crate) fn pretty_json(value: &serde_json::Value) -> (written: Result<
    String,
    serde_json::Error,
>)
    ensures
        match written {
            Ok(text) => json_pretty(json_of(*value)) == Some(text@),
            Err(_) => json_pretty(json_of(*value)) is None,
        },
{
    serde_json::to_string_pretty(value)
}

/// Calls `Value::as_array`.
///
/// Not proved: that it yields the items exactly when the value holds an
/// array.
#[verifier::external_body]
pub(crate) fn json_items(value: &serde_json::Value) -> (items: Option<&Vec<serde_json::Value>>)
    ensures
        match items {
            Some(values) => json_of(*value).items() == Some(jsons_of(values@)),
            None => json_of(*value).items() is None,
        },
{
    value.as_array()
}

/// Calls `Value::as_str`.
///
/// Not proved: that it yields the text exactly when the value holds a string.
#[verifier::external_body]
pub(crate) fn json_text(value: &serde_json::Value) -> (text: Option<&str>)
    ensures
        match text {
            Some(t) => json_of(*value).text() == Some(t@),
            None => json_of(*value).text() is None,
        },
{
    value.as_str()
}

/// Calls `Value::as_i64`.
///
/// Not proved: that it yields the number exactly when the value holds an
/// integer that 64 signed bits hold.
#[verifier::external_body]
pub(crate) fn json_integer(value: &serde_json::Value) -> (number: Option<i64>)
    ensures
        number == json_of(*value).integer(),
{
    value.as_i64()
}

/// Calls `Value::get` with a key.
///
/// Not proved: that it yields the member under the key exactly when the value
/// holds an object that has one.
#[verifier::external_body]
pub(crate) fn json_member<'a>(value: &'a serde_json::Value, key: &str) -> (member: Option<
    &'a serde_json::Value,
>)
    ensures
        match member {
            Some(found) => json_of(*value).member(key@) == Some(json_of(*found)),
            None => json_of(*value).member(key@) is None,
        },
{
    value.get(key)
}

/// Calls `Value::from` on a `String`.
///
/// Not proved: that the value holds the string.
#[verifier::external_body]
pub(crate) fn json_from_text(text: String) -> (value: serde_json::Value)
    ensures
        json_of(value) == Json::Text(text@),
{
    serde_json::Value::from(text)
}

/// Calls `Value::from` on an integer.
///
/// Not proved: that the value holds the integer.
#[verifier::external_body]
pub(crate) fn json_from_integer(number: i64) -> (value: serde_json::Value)
    ensures
        json_of(value) == Json::Int(number as int),
{
    serde_json::Value::from(number)
}

/// Calls `Value::from` on a vector of values.
///
/// Not proved: that the value holds the array of what the values hold.
#[verifier::external_body]
pub(crate) fn json_from_items(items: Vec<serde_json::Value>) -> (value: serde_json::Value)
    ensures
        json_of(value) == Json::Array(jsons_of(items@)),
{
    serde_json::Value::from(items)
}

/// Collects pairs of key and value into a `Value`, as its `FromIterator` does.
///
/// Not proved: that the value holds the object with these members in this
/// order. Keys that occur twice are left out: there the later value would
/// take the place of the earlier.
#[verifier::external_body]
pub(crate) fn json_from_members(pairs: Vec<(String, serde_json::Value)>) -> (value:
    serde_json::Value)
    requires
        forall|i: int, j: int| 0 <= i < j < pairs@.len() ==> pairs@[i].0@ != pairs@[j].0@,
    ensures
        json_of(value) == Json::Object(members_of(pairs@)),
{
    pairs.into_iter().collect::<serde_json::Value>()
}

} // verus!
