//! JSON values, as `serde_json` parses, reads and prints them.
//!
//! Nothing here is proved: each function states what the `serde_json`
//! function it calls returns, over names for those results.

use serde_json::Value;
use vstd::prelude::*;

verus! {

/// `serde_json::Value`, carried through as an opaque value.
#[verifier::external_type_specification]
#[verifier::external_body]
pub struct ExValue(serde_json::Value);

/// The value that `serde_json::from_str` reads from a text; `None` where
/// it reports an error.
pub uninterp spec fn parsed_json(text: Seq<char>) -> Option<Value>;

/// The member that `Value::get` finds under a string key; `None` where the
/// value is no object or has no such member.
pub uninterp spec fn json_member(v: Value, key: Seq<char>) -> Option<Value>;

/// The text that `Value::as_str` finds; `None` where the value is no
/// string.
pub uninterp spec fn json_string(v: Value) -> Option<Seq<char>>;

/// What `Value::is_null` answers.
pub uninterp spec fn json_null(v: Value) -> bool;

/// What `Value::is_object` answers.
pub uninterp spec fn json_object(v: Value) -> bool;

/// The bytes that `serde_json::to_vec` writes for a value; `None` where it
/// reports an error.
pub uninterp spec fn json_encoding(v: Value) -> Option<Seq<u8>>;

/// The object that collecting name and value pairs into a
/// `serde_json::Map` gives.
pub uninterp spec fn json_object_of(entries: Seq<(Seq<char>, Value)>) -> Value;

/// The string value that `Value::from` makes of a text.
pub uninterp spec fn json_string_of(text: Seq<char>) -> Value;

/// Gives `Value::Null`, of which `Value::is_null` holds.
#[verifier::external_body]
pub(crate) fn null_value() -> (r: Value)
    ensures
        json_null(r),
{
    Value::Null
}

/// Calls `serde_json::from_str` for a `Value`. The result is the named
/// parse of the text; an error of the parser becomes `None`.
#[verifier::external_body]
pub(crate) fn parse_json(text: &str) -> (r: Option<Value>)
    ensures
        r == parsed_json(text@),
{
    serde_json::from_str::<Value>(text).ok()
}

/// Calls `Value::get` with a string key. The result is the named member.
#[verifier::external_body]
pub(crate) fn member<'a>(v: &'a Value, key: &str) -> (r: Option<&'a Value>)
    ensures
        match r {
            Some(m) => json_member(*v, key@) == Some(*m),
            None => json_member(*v, key@).is_none(),
        },
{
    v.get(key)
}

/// Calls `Value::as_str`. The result is the named text, owned.
#[verifier::external_body]
pub(crate) fn string_of(v: &Value) -> (r: Option<String>)
    ensures
        match r {
            Some(s) => json_string(*v) == Some(s@),
            None => json_string(*v).is_none(),
        },
{
    match v.as_str() {
        Some(s) => Some(s.to_owned()),
        None => None,
    }
}

/// Calls `Value::is_null`.
#[verifier::external_body]
pub(crate) fn is_null(v: &Value) -> (r: bool)
    ensures
        r == json_null(*v),
{
    v.is_null()
}

/// Calls `Value::is_object`.
#[verifier::external_body]
pub(crate) fn is_object(v: &Value) -> (r: bool)
    ensures
        r == json_object(*v),
{
    v.is_object()
}

/// Calls `Value::clone`. The copy is the same JSON value.
#[verifier::external_body]
pub(crate) fn copy_value(v: &Value) -> (r: Value)
    ensures
        r == *v,
{
    v.clone()
}

/// Calls `serde_json::to_vec`. The result is the named encoding of the
/// value; an error of the encoder becomes `None`.
#[verifier::external_body]
pub(crate) fn encode_json(v: &Value) -> (r: Option<Vec<u8>>)
    ensures
        match r {
            Some(bytes) => json_encoding(*v) == Some(bytes@),
            None => json_encoding(*v).is_none(),
        },
{
    serde_json::to_vec(v).ok()
}

/// Collects name and value pairs into a `serde_json::Map` and wraps it as
/// an object. The result is the named object of the pairs, names by view.
#[verifier::external_body]
pub(crate) fn object_of(entries: Vec<(String, Value)>) -> (r: Value)
    ensures
        r == json_object_of(entries@.map_values(|e: (String, Value)| (e.0@, e.1))),
{
    Value::Object(entries.into_iter().collect::<serde_json::Map<String, Value>>())
}

/// Calls `Value::from` on a text. The result is the named string value.
#[verifier::external_body]
pub(crate) fn string_value(text: &str) -> (r: Value)
    ensures
        r == json_string_of(text@),
{
    Value::from(text)
}

} // verus!
