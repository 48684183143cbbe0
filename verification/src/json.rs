//! What the configuration resolver reads of a JSON value.
//!
//! A `serde_json::Value` is opaque to the verifier. This module names its
//! content as a mathematical tree and gives the four accessors that the
//! resolver calls a contract over that tree. Nothing here is proved: each
//! contract restates what the accessor's own source does.

use vstd::prelude::*;

verus! {

/// `serde_json::Value`: a JSON value, carried and read through the
/// accessors below.
#[verifier::external_type_specification]
#[verifier::external_body]
pub struct ExValue(serde_json::Value);

/// The content of a JSON value, as far as configuration reading tells values
/// apart: null, a string, an object with its members, or anything else
/// (a boolean, a number, an array).
pub enum JsonModel {
    Null,
    Text(Seq<char>),
    Object(Map<Seq<char>, JsonModel>),
    Other,
}

/// The tree that a `serde_json::Value` holds.
pub uninterp spec fn json_model(value: serde_json::Value) -> JsonModel;

/// `serde_json::Value::is_null`: true exactly for the JSON null.
#[verifier::external_body]
pub(crate) fn is_null(value: &serde_json::Value) -> (r: bool)
    ensures
        r == (json_model(*value) is Null),
{
    value.is_null()
}

/// `serde_json::Value::is_object`: true exactly for a JSON object.
#[verifier::external_body]
pub(crate) fn is_object(value: &serde_json::Value) -> (r: bool)
    ensures
        r == (json_model(*value) is Object),
{
    value.is_object()
}

/// `serde_json::Value::as_str`: the text of a JSON string, and `None` for
/// every other kind of value.
#[verifier::external_body]
pub(crate) fn as_str(value: &serde_json::Value) -> (r: Option<&str>)
    ensures
        match r {
            Some(text) => json_model(*value) == JsonModel::Text(text@),
            None => !(json_model(*value) is Text),
        },
{
    value.as_str()
}

/// `serde_json::Value::get` with a string key: the member of that name when
/// the value is an object that has one, and `None` otherwise.
#[verifier::external_body]
pub(crate) fn get<'a>(value: &'a serde_json::Value, key: &str) -> (r: Option<&'a serde_json::Value>)
    ensures
        match r {
            Some(member) => json_model(*value) is Object
                && json_model(*value)->Object_0.contains_key(key@)
                && json_model(*value)->Object_0[key@] == json_model(*member),
            None => !(json_model(*value) is Object)
                || !json_model(*value)->Object_0.contains_key(key@),
        },
{
    value.get(key)
}

} // verus!
