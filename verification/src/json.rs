//! The JSON values the library reads and builds, seen through what the JSON
//! library documents of them.

use serde_json::Value;

use vstd::prelude::*;

verus! {

/// A JSON object's entries: key to value.
pub type JsonObject = serde_json::Map<String, Value>;

/// What a JSON object map holds: key to value.
pub uninterp spec fn object_entries(m: JsonObject) -> Map<Seq<char>, Value>;

/// Whether a JSON value is an object (`Value::Object`).
pub uninterp spec fn json_is_object(v: Value) -> bool;

/// The entries of a JSON value that is an object.
pub uninterp spec fn json_object_entries(v: Value) -> Map<Seq<char>, Value>;

/// The string a JSON value holds, when it is a string (`Value::as_str`).
pub uninterp spec fn json_string(v: Value) -> Option<Seq<char>>;

/// The compact JSON text of a value (`Value`'s `Display`).
pub uninterp spec fn json_text(v: Value) -> Seq<char>;

/// What `serde_json::from_str` parses a text into, when it is one JSON value.
pub uninterp spec fn json_parse(text: Seq<char>) -> Option<Value>;

/// Whether a JSON value is `null`.
pub uninterp spec fn json_is_null(v: Value) -> bool;

/// The items of a JSON value that is an array (`Value::as_array`).
pub uninterp spec fn json_array(v: Value) -> Option<Seq<Value>>;

/// The object value whose entries are `e` (`Value::Object`): an object is
/// determined by its entries.
pub uninterp spec fn json_of_object(e: Map<Seq<char>, Value>) -> Value;

/// The string value holding `s` (`Value::String`).
pub uninterp spec fn json_of_string(s: Seq<char>) -> Value;

/// The array value holding `items` in order (`Value::Array`).
pub uninterp spec fn json_of_array(items: Seq<Value>) -> Value;

/// The `null` value: the one value that is null.
pub open spec fn null_json() -> Value {
    choose|w: Value| json_is_null(w)
}

/// The empty object map.
pub open spec fn no_entries() -> Map<Seq<char>, Value> {
    Map::empty()
}

/// `serde_json::Map::new`: an empty object map.
#[verifier::external_body]
pub(crate) fn new_object() -> (r: JsonObject)
    ensures
        object_entries(r) == no_entries(),
{
    serde_json::Map::new()
}

/// `serde_json::Map::insert`: sets `key` to `value`, replacing an earlier value.
#[verifier::external_body]
pub(crate) fn object_insert(m: &mut JsonObject, key: String, value: Value)
    ensures
        object_entries(*final(m)) == object_entries(*old(m)).insert(key@, value),
{
    m.insert(key, value);
}

/// `Value::Object`: the object value with these entries (a `BTreeMap`, so the
/// entries alone fix it); it is no string, null or array.
#[verifier::external_body]
pub(crate) fn object_value(m: JsonObject) -> (r: Value)
    ensures
        r == json_of_object(object_entries(m)),
        json_is_object(r),
        json_object_entries(r) == object_entries(m),
        json_string(r) is None,
        !json_is_null(r),
        json_array(r) is None,
{
    Value::Object(m)
}

/// `Value::String`: the string value holding `s`; it is no object, null or array.
#[verifier::external_body]
pub(crate) fn string_value(s: String) -> (r: Value)
    ensures
        r == json_of_string(s@),
        json_string(r) == Some(s@),
        !json_is_object(r),
        !json_is_null(r),
        json_array(r) is None,
{
    Value::String(s)
}

/// `Value::Null`, the enum's one payload-free variant: every null value is it; it
/// is no object, string or array.
#[verifier::external_body]
pub(crate) fn null_value() -> (r: Value)
    ensures
        json_is_null(r),
        forall|w: Value| json_is_null(w) ==> w == r,
        !json_is_object(r),
        json_string(r) is None,
        json_array(r) is None,
{
    Value::Null
}

/// `Value::Array`: the array value holding `items` in order; it is no object,
/// string or null.
#[verifier::external_body]
pub(crate) fn array_value(items: Vec<Value>) -> (r: Value)
    ensures
        r == json_of_array(items@),
        json_array(r) == Some(items@),
        !json_is_object(r),
        json_string(r) is None,
        !json_is_null(r),
{
    Value::Array(items)
}

/// Tells `Value::Object` apart from the other variants: its entries, or the value
/// handed back unchanged.
#[verifier::external_body]
pub(crate) fn into_object(v: Value) -> (r: Result<JsonObject, Value>)
    ensures
        r is Ok <==> json_is_object(v),
        r matches Ok(m) ==> object_entries(m) == json_object_entries(v),
        r matches Err(w) ==> w == v,
{
    match v {
        Value::Object(m) => Ok(m),
        other => Err(other),
    }
}

/// `serde_json::from_str::<Value>`: the value a text holds, `None` when it is not
/// one JSON value.
#[verifier::external_body]
pub(crate) fn parse_json(text: &str) -> (r: Option<Value>)
    ensures
        r == json_parse(text@),
{
    serde_json::from_str::<Value>(text).ok()
}

/// `Value::get` with a string key: the member under `key` when `v` is an object
/// that has one, else `None`.
#[verifier::external_body]
pub(crate) fn get_member<'a>(v: &'a Value, key: &str) -> (r: Option<&'a Value>)
    ensures
        r is Some <==> (json_is_object(*v) && json_object_entries(*v).contains_key(key@)),
        r matches Some(m) ==> *m == json_object_entries(*v)[key@],
{
    v.get(key)
}

/// `Value::as_str`: the string a value holds, when it is a string.
#[verifier::external_body]
pub(crate) fn as_text<'a>(v: &'a Value) -> (r: Option<&'a str>)
    ensures
        r is Some <==> json_string(*v) is Some,
        r matches Some(s) ==> json_string(*v) == Some(s@),
{
    v.as_str()
}

/// `Value`'s `Display` (through `ToString`): its compact JSON text.
#[verifier::external_body]
pub(crate) fn to_json_text(v: &Value) -> (r: String)
    ensures
        r@ == json_text(*v),
{
    v.to_string()
}

} // verus!
