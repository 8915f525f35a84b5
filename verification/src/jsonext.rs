//! Trusted boundary to serde_json. A parsed document denotes a
//! mathematical tree (`JsonModel`); `json_tree_of` names the tree a
//! body text denotes and `json_model` names the tree a `Value` holds.
//! Each accessor wrapper states its result over that model, so the
//! response walking in the exchange module is verified against exact
//! contracts; only these single calls are trusted.

use vstd::prelude::*;

verus! {

/// The mathematical value of a JSON document. A number stored as an
/// integer carries its value; one stored as floating point is marked
/// `Float` and carries none (the core never reads one).
pub enum JsonModel {
    Null,
    Bool(bool),
    Int(int),
    Float,
    Str(Seq<char>),
    Arr(Seq<JsonModel>),
    Obj(Map<Seq<char>, JsonModel>),
}

/// The member of an object under `key`, when the value is an object
/// that has it.
pub open spec fn obj_get(t: JsonModel, key: Seq<char>) -> Option<JsonModel> {
    match t {
        JsonModel::Obj(m) => if m.contains_key(key) {
            Some(m[key])
        } else {
            None
        },
        _ => None,
    }
}

/// The value as a signed 64-bit integer, when it is an integer in
/// range: what `as_i64` yields.
pub open spec fn int_of(t: JsonModel) -> Option<i64> {
    match t {
        JsonModel::Int(i) => if i64::MIN <= i <= i64::MAX {
            Some(i as i64)
        } else {
            None
        },
        _ => None,
    }
}

/// The tree a `serde_json::Value` holds.
pub uninterp spec fn json_model(v: serde_json::Value) -> JsonModel;

/// The tree a document text denotes: `None` when the text is not valid
/// JSON. A function of the text alone.
pub uninterp spec fn json_tree_of(s: Seq<char>) -> Option<JsonModel>;

#[verifier::external_type_specification]
#[verifier::external_body]
pub struct ExValue(serde_json::Value);

/// Relies on serde_json::from_str::<Value>: parses one JSON document;
/// fails exactly when the body is not valid JSON, else yields the tree
/// the text denotes.
#[verifier::external_body]
pub(crate) fn json_parse(s: &str) -> (r: Option<serde_json::Value>)
    ensures
        r matches Some(v) ==> json_tree_of(s@) == Some(json_model(v)),
        r is None ==> json_tree_of(s@) is None,
{
    serde_json::from_str::<serde_json::Value>(s).ok()
}

/// Relies on serde_json::Value::get: the member under `key`, when the
/// value is an object that has it; `None` on a non-object or a missing
/// key.
#[verifier::external_body]
pub(crate) fn json_get<'a>(v: &'a serde_json::Value, key: &str) -> (r: Option<
    &'a serde_json::Value,
>)
    ensures
        r matches Some(f) ==> obj_get(json_model(*v), key@) == Some(json_model(*f)),
        r is None ==> obj_get(json_model(*v), key@) is None,
{
    v.get(key)
}

/// Relies on serde_json::Value::is_null: whether the value is JSON
/// null.
#[verifier::external_body]
pub(crate) fn json_is_null(v: &serde_json::Value) -> (r: bool)
    ensures
        r == (json_model(*v) is Null),
{
    v.is_null()
}

/// Relies on serde_json::Value::as_i64: the value as a signed integer,
/// when it is an integer that fits; floating-point numbers and
/// out-of-range unsigned integers yield `None`.
#[verifier::external_body]
pub(crate) fn json_as_i64(v: &serde_json::Value) -> (r: Option<i64>)
    ensures
        r == int_of(json_model(*v)),
{
    v.as_i64()
}

/// Relies on serde_json::Value::as_str: the value's text, when it is a
/// JSON string.
#[verifier::external_body]
pub(crate) fn json_as_str<'a>(v: &'a serde_json::Value) -> (r: Option<&'a str>)
    ensures
        r matches Some(s2) ==> json_model(*v) == JsonModel::Str(s2@),
        r is None ==> !(json_model(*v) is Str),
{
    v.as_str()
}

/// Relies on serde_json::Value::as_array: the value's elements, when
/// it is a JSON array; the elements hold the array's trees in order.
#[verifier::external_body]
pub(crate) fn json_as_array<'a>(v: &'a serde_json::Value) -> (r: Option<
    &'a Vec<serde_json::Value>,
>)
    ensures
        r matches Some(a) ==> (json_model(*v) matches JsonModel::Arr(ts) && a@.len() == ts.len()
            && (forall|i: int| 0 <= i < ts.len() ==> json_model(#[trigger] a@[i]) == ts[i])),
        r is None ==> !(json_model(*v) is Arr),
{
    v.as_array()
}

} // verus!
