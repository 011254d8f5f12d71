//! JSON objects, as reports are written in them.

use vstd::prelude::*;

use serde_json::{Map as JsonMap, Value};

verus! {

#[verifier::external_type_specification]
#[verifier::external_body]
pub struct ExValue(serde_json::Value);

#[verifier::external_type_specification]
#[verifier::external_body]
#[verifier::reject_recursive_types(K)]
#[verifier::reject_recursive_types(V)]
pub struct ExJsonMap<K, V>(serde_json::Map<K, V>);

#[verifier::external_type_specification]
#[verifier::external_body]
pub struct ExJsonError(serde_json::Error);

/// What a field of an object holds.
pub enum Json {
    Text(Seq<char>),
    Number(u64),
    Object(Map<Seq<char>, Json>),
}

/// The fields of an object: a value for each name.
pub uninterp spec fn fields(object: JsonMap<String, Value>) -> Map<Seq<char>, Json>;

/// The fields of an object that has none.
pub open spec fn no_fields() -> Map<Seq<char>, Json> {
    Map::empty()
}

/// The indented text of an object with the given fields.
pub uninterp spec fn pretty(fields: Map<Seq<char>, Json>) -> Seq<char>;

/// `serde_json::Map::new`: an object without fields.
#[verifier::external_body]
pub(crate) fn new_object() -> (r: JsonMap<String, Value>)
    ensures
        fields(r) == no_fields(),
{
    JsonMap::new()
}

/// `serde_json::Map::insert` of a `Value::String`: the field holds the text, in place of
/// what it held before; the other fields stay.
#[verifier::external_body]
pub(crate) fn put_text(object: &mut JsonMap<String, Value>, name: &str, text: String)
    ensures
        fields(*final(object)) == fields(*old(object)).insert(name@, Json::Text(text@)),
{
    object.insert(name.to_string(), Value::String(text));
}

/// `serde_json::Map::insert` of a number: the field holds the number, in place of what it
/// held before; the other fields stay.
#[verifier::external_body]
pub(crate) fn put_number(object: &mut JsonMap<String, Value>, name: &str, number: u64)
    ensures
        fields(*final(object)) == fields(*old(object)).insert(name@, Json::Number(number)),
{
    object.insert(name.to_string(), Value::from(number));
}

/// `serde_json::Map::insert` of a `Value::Object`: the field holds the object, in place of
/// what it held before; the other fields stay.
#[verifier::external_body]
pub(crate) fn put_object(
    object: &mut JsonMap<String, Value>,
    name: &str,
    inner: JsonMap<String, Value>,
)
    ensures
        fields(*final(object)) == fields(*old(object)).insert(name@, Json::Object(fields(inner))),
{
    object.insert(name.to_string(), Value::Object(inner));
}

/// `serde_json::to_string_pretty` of an object: it fails only on keys that are no strings
/// and on values that refuse to be written, and an object has neither; fields are written
/// in the order of their names, so the text follows from the fields.
#[verifier::external_body]
pub(crate) fn write_pretty(object: &JsonMap<String, Value>) -> (r: Result<
    String,
    serde_json::Error,
>)
    ensures
        r is Ok,
        r->Ok_0@ == pretty(fields(*object)),
{
    serde_json::to_string_pretty(object)
}

/// The indented text of an object.
pub(crate) fn render(object: &JsonMap<String, Value>) -> (r: String)
    ensures
        r@ == pretty(fields(*object)),
{
    write_pretty(object).unwrap()
}

} // verus!
