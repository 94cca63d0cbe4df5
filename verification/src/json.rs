//! JSON documents, as `serde_json` reads them.
//!
//! Nothing in this module is proved: it states what the library relies on
//! from `serde_json`. A document is modelled by the mathematical value `Json`.

use vstd::prelude::*;

verus! {

/// The mathematical value of a JSON document. A number is held as the
/// IEEE-754 bit pattern of its value as a 64-bit float.
pub enum Json {
    Null,
    Bool(bool),
    Number(u64),
    Text(Seq<char>),
    Array(Seq<Json>),
    Object(Map<Seq<char>, Json>),
}

/// `serde_json::Value`, a parsed document. Nothing of its inside is known
/// here; `json_of` names the document that it stands for.
#[verifier::external_type_specification]
#[verifier::external_body]
pub struct ExValue(serde_json::Value);

/// `serde_json::Map`, the fields of a JSON object. Nothing of its inside is
/// known here; `fields_of` names the fields that it holds.
#[verifier::external_type_specification]
#[verifier::external_body]
#[verifier::reject_recursive_types(K)]
#[verifier::reject_recursive_types(V)]
pub struct ExObject<K, V>(serde_json::Map<K, V>);

/// `serde_json::Error`, why a text is no JSON document. It is passed on
/// unread.
#[verifier::external_type_specification]
#[verifier::external_body]
pub struct ExJsonError(serde_json::Error);

/// The document that a text holds; `None` where the text is no JSON document.
pub uninterp spec fn json_of_text(text: Seq<char>) -> Option<Json>;

/// The document that a `serde_json::Value` stands for.
pub uninterp spec fn json_of(value: serde_json::Value) -> Json;

/// The fields that a `serde_json::Map` holds.
pub uninterp spec fn fields_of(object: serde_json::Map<String, serde_json::Value>) -> Map<
    Seq<char>,
    Json,
>;

/// Calls `serde_json::from_str` for a `Value`. Trusted: the outcome is a
/// function of the text alone; it is an error exactly where the text is no
/// JSON document, and otherwise the value stands for the document of the text.
#[verifier::external_body]
pub(crate) fn parse_document(text: &str) -> (parsed: Result<serde_json::Value, serde_json::Error>)
    ensures
        match parsed {
            Ok(value) => json_of_text(text@) == Some(json_of(value)),
            Err(_) => json_of_text(text@) is None,
        },
{
    serde_json::from_str::<serde_json::Value>(text)
}

/// Calls `Value::as_object`. Trusted: it returns the map of a value that is
/// an object, and `None` for every other value.
#[verifier::external_body]
pub(crate) fn as_object(value: &serde_json::Value) -> (object: Option<
    &serde_json::Map<String, serde_json::Value>,
>)
    ensures
        match object {
            Some(map) => json_of(*value) == Json::Object(fields_of(*map)),
            None => !(json_of(*value) is Object),
        },
{
    value.as_object()
}

/// Calls `Map::get`. Trusted: it returns the value of the field of that name,
/// and `None` where the map has no such field.
#[verifier::external_body]
pub(crate) fn get_field<'a>(
    object: &'a serde_json::Map<String, serde_json::Value>,
    name: &str,
) -> (field: Option<&'a serde_json::Value>)
    ensures
        match field {
            Some(value) => fields_of(*object).contains_key(name@) && json_of(*value) == fields_of(
                *object,
            )[name@],
            None => !fields_of(*object).contains_key(name@),
        },
{
    object.get(name)
}

/// Calls `Map::iter` and collects what it yields. Trusted: the entries are
/// the fields of the map, each name once.
#[verifier::external_body]
pub(crate) fn entries<'a>(object: &'a serde_json::Map<String, serde_json::Value>) -> (list: Vec<
    (&'a String, &'a serde_json::Value),
>)
    ensures
        forall|i: int|
            0 <= i < list@.len() ==> fields_of(*object).contains_key((#[trigger] list@[i]).0@)
                && fields_of(*object)[list@[i].0@] == json_of(*list@[i].1),
        forall|i: int, j: int|
            0 <= i < j < list@.len() ==> (#[trigger] list@[i]).0@ != (#[trigger] list@[j]).0@,
        forall|name: Seq<char>|
            fields_of(*object).contains_key(name) ==> exists|i: int|
                0 <= i < list@.len() && (#[trigger] list@[i]).0@ == name,
{
    object.iter().collect()
}

/// Calls `Value::as_f64` and takes the bits of the float. Trusted: it returns
/// the value of a number, and `None` for every value that is no number.
#[verifier::external_body]
pub(crate) fn as_number(value: &serde_json::Value) -> (number: Option<u64>)
    ensures
        match number {
            Some(bits) => json_of(*value) == Json::Number(bits),
            None => !(json_of(*value) is Number),
        },
{
    value.as_f64().map(|x| x.to_bits())
}

} // verus!
