//! JSON documents: `serde_json::Value`.

use vstd::prelude::*;

use serde_json::Value;

verus! {

/// A JSON document in memory.
#[verifier::external_type_specification]
#[verifier::external_body]
pub struct ExValue(Value);

/// What a JSON document says.
pub enum Json {
    /// `null`
    Null,
    /// `true` or `false`
    Bool(bool),
    /// A number, with its value where that is an integer from 0 to 2^64 - 1 and is written as one.
    Number(Option<u64>),
    /// A string.
    Str(Seq<char>),
    /// A list of documents.
    Array(Seq<Json>),
    /// A mapping from names to documents.
    Object(Map<Seq<char>, Json>),
}

/// What a document in memory says.
pub uninterp spec fn json_of(value: Value) -> Json;

/// What `serde_json::from_str` makes of a text; nothing where it is not JSON.
pub uninterp spec fn json_parsed(text: Seq<char>) -> Option<Json>;

/// The member of that name, of a document that is an object and has one.
pub open spec fn member(json: Json, name: Seq<char>) -> Option<Json> {
    match json {
        Json::Object(members) => if members.contains_key(name) {
            Some(members[name])
        } else {
            None
        },
        _ => None,
    }
}

/// `serde_json::from_str::<Value>`: the document that the text is, if it is one.
#[verifier::external_body]
pub(crate) fn parse(text: &str) -> (value: Option<Value>)
    ensures
        value is Some <==> json_parsed(text@) is Some,
        value matches Some(v) ==> json_parsed(text@) == Some(json_of(v)),
{
    serde_json::from_str(text).ok()
}

/// `Value::get` with a name: the member of that name, of an object that has one.
#[verifier::external_body]
pub(crate) fn get<'a>(value: &'a Value, name: &str) -> (found: Option<&'a Value>)
    ensures
        found is Some <==> member(json_of(*value), name@) is Some,
        found matches Some(v) ==> member(json_of(*value), name@) == Some(json_of(*v)),
{
    value.get(name)
}

/// `Value::as_str`: the text of a string.
#[verifier::external_body]
pub(crate) fn as_str(value: &Value) -> (text: Option<&str>)
    ensures
        text is Some <==> json_of(*value) is Str,
        text matches Some(s) ==> json_of(*value) == Json::Str(s@),
{
    value.as_str()
}

/// `Value::as_array`: the documents of a list, in order.
#[verifier::external_body]
pub(crate) fn as_array(value: &Value) -> (items: Option<&Vec<Value>>)
    ensures
        items is Some <==> json_of(*value) is Array,
        items matches Some(list) ==> json_of(*value) == Json::Array(
            list@.map_values(|v: Value| json_of(v)),
        ),
{
    value.as_array()
}

/// `Value::as_u64`: the value of a number that is an integer from 0 to 2^64 - 1.
#[verifier::external_body]
pub(crate) fn as_u64(value: &Value) -> (number: Option<u64>)
    ensures
        number == (match json_of(*value) {
            Json::Number(n) => n,
            _ => None,
        }),
{
    value.as_u64()
}

} // verus!
