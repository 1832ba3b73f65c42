//! JSON objects of text and integer fields, built and written out by
//! `serde_json`.

use vstd::prelude::*;

verus! {

/// What a JSON value is.
pub enum JsonView {
    /// A string.
    Text(Seq<char>),
    /// An integer.
    Int(int),
    /// Anything else, by its JSON text.
    Other(Seq<char>),
}

#[verifier::external_type_specification]
#[verifier::external_body]
pub struct ExJsonValue(serde_json::Value);

#[verifier::external_type_specification]
#[verifier::external_body]
#[verifier::reject_recursive_types(K)]
#[verifier::reject_recursive_types(V)]
pub struct ExJsonMap<K, V>(serde_json::Map<K, V>);

/// The JSON value that a `serde_json::Value` holds.
pub uninterp spec fn json_value(value: serde_json::Value) -> JsonView;

/// The fields of a `serde_json` object.
pub uninterp spec fn json_fields(object: serde_json::Map<String, serde_json::Value>) -> Map<
    Seq<char>,
    JsonView,
>;

/// The text that `serde_json` writes an object of these fields as.
pub uninterp spec fn json_text(fields: Map<Seq<char>, JsonView>) -> Seq<char>;

/// No fields at all.
pub open spec fn no_fields() -> Map<Seq<char>, JsonView> {
    Map::empty()
}

/// `serde_json::Value::from(String)`: the JSON string of the same characters.
#[verifier::external_body]
pub(crate) fn text_value(text: String) -> (value: serde_json::Value)
    ensures
        json_value(value) == JsonView::Text(text@),
{
    serde_json::Value::from(text)
}

/// `serde_json::Value::from(i64)`: the JSON integer of the same value.
#[verifier::external_body]
pub(crate) fn int_value(number: i64) -> (value: serde_json::Value)
    ensures
        json_value(value) == JsonView::Int(number as int),
{
    serde_json::Value::from(number)
}

/// `serde_json::Map::new`: an object without fields.
#[verifier::external_body]
pub(crate) fn object_new() -> (object: serde_json::Map<String, serde_json::Value>)
    ensures
        json_fields(object) == no_fields(),
{
    serde_json::Map::new()
}

/// `serde_json::Map::insert`: the field `key` gets `value`, whether it was
/// there before or not; the other fields stay.
#[verifier::external_body]
pub(crate) fn object_insert(
    object: &mut serde_json::Map<String, serde_json::Value>,
    key: String,
    value: serde_json::Value,
)
    ensures
        json_fields(*final(object)) == json_fields(*old(object)).insert(key@, json_value(value)),
{
    object.insert(key, value);
}

/// `serde_json::Value`'s `Display`, as `to_string` runs it: compact JSON text,
/// the fields in the order of their names. The text is settled by the fields.
#[verifier::external_body]
pub(crate) fn object_text(object: serde_json::Map<String, serde_json::Value>) -> (text: String)
    ensures
        text@ == json_text(json_fields(object)),
{
    serde_json::Value::Object(object).to_string()
}

/// An object without fields has none.
pub proof fn law_no_fields_are_none(key: Seq<char>)
    ensures
        !no_fields().dom().contains(key),
{
}

} // verus!
