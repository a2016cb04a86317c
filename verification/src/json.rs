//! JSON values, which `serde_json` holds, and what they mean.
//!
//! `serde_json::Value` and `serde_json::Map` are opaque here. What they hold is
//! told by [`json_of`] and [`fields_of`], and the functions below that touch
//! them say what the crate does to it.

use vstd::prelude::*;

verus! {

/// What a JSON value holds.
pub enum Json {
    Null,
    Bool(bool),
    /// A whole number.
    Int(int),
    /// Any other number, as it is written.
    Real(Seq<char>),
    Text(Seq<char>),
    List(Seq<Json>),
    Object(Map<Seq<char>, Json>),
}

/// `serde_json::Value`, a JSON value.
#[verifier::external_type_specification]
#[verifier::external_body]
pub struct ExValue(serde_json::Value);

/// `serde_json::Map`, the fields of a JSON object.
#[verifier::external_type_specification]
#[verifier::external_body]
#[verifier::reject_recursive_types(K)]
#[verifier::reject_recursive_types(V)]
pub struct ExMap<K, V>(serde_json::Map<K, V>);

/// What `value` holds.
pub uninterp spec fn json_of(value: serde_json::Value) -> Json;

/// The fields of an object under construction, by name.
pub uninterp spec fn fields_of(object: serde_json::Map<String, serde_json::Value>) -> Map<
    Seq<char>,
    Json,
>;

/// The fields of an object that has none.
pub open spec fn no_fields() -> Map<Seq<char>, Json> {
    Map::empty()
}

/// What each of `values` holds.
pub open spec fn jsons_of(values: Seq<serde_json::Value>) -> Seq<Json> {
    values.map_values(|value: serde_json::Value| json_of(value))
}

/// The field `key` of `json`, where `json` is an object that has it.
pub open spec fn field(json: Json, key: Seq<char>) -> Option<Json> {
    match json {
        Json::Object(fields) => if fields.contains_key(key) {
            Some(fields[key])
        } else {
            None
        },
        _ => None,
    }
}

/// The text that `json` is, or nothing where it is no text.
pub open spec fn as_text(json: Option<Json>) -> Option<Seq<char>> {
    match json {
        Some(Json::Text(text)) => Some(text),
        _ => None,
    }
}

/// The items of the list that `json` is; none where it is no list.
pub open spec fn as_items(json: Option<Json>) -> Seq<Json> {
    match json {
        Some(Json::List(items)) => items,
        _ => Seq::empty(),
    }
}

/// `serde_json::Map::new`: an object without fields.
#[verifier::external_body]
pub(crate) fn object_new() -> (object: serde_json::Map<String, serde_json::Value>)
    ensures
        fields_of(object) == no_fields(),
{
    serde_json::Map::new()
}

/// `serde_json::Map::insert`: the field `key` now holds `value`, whatever it
/// held before, and no other field changes.
#[verifier::external_body]
pub(crate) fn object_insert(
    object: &mut serde_json::Map<String, serde_json::Value>,
    key: &str,
    value: serde_json::Value,
)
    ensures
        fields_of(*final(object)) == fields_of(*old(object)).insert(key@, json_of(value)),
{
    object.insert(key.to_string(), value);
}

/// `serde_json::Value::Object`: the object with these fields.
#[verifier::external_body]
pub(crate) fn object_value(object: serde_json::Map<String, serde_json::Value>) -> (value:
    serde_json::Value)
    ensures
        json_of(value) == Json::Object(fields_of(object)),
{
    serde_json::Value::Object(object)
}

/// `serde_json::Value::get` with a string: the field of that name of an object;
/// nothing where the object lacks it or the value is no object.
#[verifier::external_body]
pub(crate) fn value_get<'a>(value: &'a serde_json::Value, key: &str) -> (found: Option<
    &'a serde_json::Value,
>)
    ensures
        found is Some <==> field(json_of(*value), key@) is Some,
        found is Some ==> json_of(*found->0) == field(json_of(*value), key@)->0,
{
    value.get(key)
}

/// `serde_json::Value::as_str`: the text of a string value; nothing for any
/// other value.
pub assume_specification[ serde_json::Value::as_str ](value: &serde_json::Value) -> (text: Option<
    &str,
>)
    ensures
        text is Some <==> json_of(*value) is Text,
        text is Some ==> json_of(*value) == Json::Text(text->0@),
;

/// `serde_json::Value::as_array`: the items of an array value, in order; nothing
/// for any other value.
pub assume_specification[ serde_json::Value::as_array ](value: &serde_json::Value) -> (items:
    Option<&Vec<serde_json::Value>>)
    ensures
        items is Some <==> json_of(*value) is List,
        items is Some ==> json_of(*value) == Json::List(jsons_of(items->0@)),
;

/// `serde_json::Value::clone`: a value that holds the same.
pub assume_specification[ <serde_json::Value as Clone>::clone ](value: &serde_json::Value) -> (copy:
    serde_json::Value)
    ensures
        json_of(copy) == json_of(*value),
;

/// `serde_json::Value::String`: the JSON string that `text` is.
#[verifier::external_body]
pub(crate) fn text_value(text: &str) -> (value: serde_json::Value)
    ensures
        json_of(value) == Json::Text(text@),
{
    serde_json::Value::String(text.to_string())
}

/// `serde_json::Value::from` on an unsigned number: the JSON number that `n` is.
#[verifier::external_body]
pub(crate) fn unsigned_value(n: u64) -> (value: serde_json::Value)
    ensures
        json_of(value) == Json::Int(n as int),
{
    serde_json::Value::from(n)
}

/// `serde_json::Value::from` on a signed number: the JSON number that `n` is.
#[verifier::external_body]
pub(crate) fn signed_value(n: i64) -> (value: serde_json::Value)
    ensures
        json_of(value) == Json::Int(n as int),
{
    serde_json::Value::from(n)
}

/// `serde_json::Value::Array`: the JSON array of these items, in this order.
#[verifier::external_body]
pub(crate) fn array_value(items: Vec<serde_json::Value>) -> (value: serde_json::Value)
    ensures
        json_of(value) == Json::List(jsons_of(items@)),
{
    serde_json::Value::Array(items)
}

/// `serde_json::Value::Null`: the JSON null.
#[verifier::external_body]
pub(crate) fn null_value() -> (value: serde_json::Value)
    ensures
        json_of(value) == Json::Null,
{
    serde_json::Value::Null
}

} // verus!
