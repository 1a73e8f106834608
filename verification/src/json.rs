//! JSON values as the request transport hands them over.
//!
//! A `serde_json::Value` is opaque to the verifier. What the request handlers
//! read of one is described by [`shape`] and [`json_debug`], and the few
//! operations they perform on one are the trusted functions of this module.

use serde_json::Value;
use vstd::prelude::*;

verus! {

/// `serde_json::Value`, as an opaque value.
#[verifier::external_type_specification]
#[verifier::external_body]
pub struct ExValue(serde_json::Value);

/// The part of a JSON value that the request handlers distinguish.
pub enum JsonShape {
    /// The JSON `null`.
    Null,
    /// A JSON string, with its characters.
    Text(Seq<char>),
    /// A JSON array, with its elements in order.
    List(Seq<Value>),
    /// A boolean, a number or an object.
    Other,
}

/// Which variant a value is, with the payload of a string or an array.
pub uninterp spec fn shape(v: Value) -> JsonShape;

/// The text that the `Debug` formatting of a value produces.
pub uninterp spec fn json_debug(v: Value) -> Seq<char>;

/// `serde_json::Value::as_str`: the characters of a JSON string, and `None`
/// for every other variant.
#[verifier::external_body]
pub(crate) fn as_text(v: &Value) -> (r: Option<&str>)
    ensures
        match r {
            Some(s) => shape(*v) == JsonShape::Text(s@),
            None => !(shape(*v) is Text),
        },
{
    v.as_str()
}

/// `serde_json::Value::as_array`: the elements of a JSON array, and `None`
/// for every other variant.
#[verifier::external_body]
pub(crate) fn as_list(v: &Value) -> (r: Option<&Vec<Value>>)
    ensures
        match r {
            Some(items) => shape(*v) == JsonShape::List(items@),
            None => !(shape(*v) is List),
        },
{
    v.as_array()
}

/// `serde_json::Value::is_null`: whether the value is the JSON `null`.
#[verifier::external_body]
pub(crate) fn is_null(v: &Value) -> (b: bool)
    ensures
        b == (shape(*v) is Null),
{
    v.is_null()
}

/// `serde_json::Value::String`: the JSON string that holds the given text.
#[verifier::external_body]
pub(crate) fn text_value(s: String) -> (v: Value)
    ensures
        shape(v) == JsonShape::Text(s@),
{
    Value::String(s)
}

/// The `Debug` implementation of `serde_json::Value`, run through `format!`.
#[verifier::external_body]
pub(crate) fn debug_text(v: &Value) -> (s: String)
    ensures
        s@ == json_debug(*v),
{
    format!("{:?}", v)
}

} // verus!
