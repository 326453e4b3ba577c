//! The JSON values that tool definitions, tool results and tool arguments
//! carry.  They are `serde_json::Value`s, opaque here: the library passes them
//! through and obtains them only from the calls below.
use vstd::prelude::*;

verus! {

/// `serde_json::Value`, carried through opaquely.
#[verifier::external_type_specification]
#[verifier::external_body]
pub struct ExJsonValue(serde_json::Value);

/// `serde_json::from_str::<Value>(text)`, or `Value::Null` when `text` is not JSON.
pub uninterp spec fn spec_json_or_null(text: Seq<char>) -> serde_json::Value;

/// Parses `text` as JSON (`serde_json::from_str`); text that is not JSON gives
/// `Value::Null`.  Parsing is a function of the text alone.
#[verifier::external_body]
pub(crate) fn json_from_str_or_null(text: &str) -> (r: serde_json::Value)
    ensures
        r == spec_json_or_null(text@),
{
    serde_json::from_str(text).unwrap_or(serde_json::Value::Null)
}

/// `Value::Null`, which is also what the text `null` parses to.
#[verifier::external_body]
pub(crate) fn json_null() -> (r: serde_json::Value)
    ensures
        r == spec_json_or_null("null"@),
{
    serde_json::Value::Null
}

/// What `value[key].as_str()` gives: the string held under `key` when `value`
/// is an object holding a string there, else nothing.
pub uninterp spec fn spec_json_str_field(value: serde_json::Value, key: Seq<char>) -> Option<Seq<char>>;

/// `value[key].as_str()`, copied out.
#[verifier::external_body]
pub(crate) fn json_str_field(value: &serde_json::Value, key: &str) -> (r: Option<String>)
    ensures
        crate::tool_layer::opt_view(r) == spec_json_str_field(*value, key@),
{
    match value[key].as_str() {
        Some(s) => Some(s.to_string()),
        None => None,
    }
}

/// What `value[key].as_u64()` gives: the unsigned integer held under `key`
/// when there is one, else nothing.
pub uninterp spec fn spec_json_u64_field(value: serde_json::Value, key: Seq<char>) -> Option<u64>;

/// `value[key].as_u64()`.
#[verifier::external_body]
pub(crate) fn json_u64_field(value: &serde_json::Value, key: &str) -> (r: Option<u64>)
    ensures
        r == spec_json_u64_field(*value, key@),
{
    value[key].as_u64()
}

/// What `reply["choices"][0]["message"]["content"].as_str()` gives: the text
/// of the first choice of a chat-completion reply, when it is a string.
pub uninterp spec fn spec_reply_content(reply: serde_json::Value) -> Option<Seq<char>>;

/// `reply["choices"][0]["message"]["content"].as_str()`, copied out.
#[verifier::external_body]
pub(crate) fn json_reply_content(reply: &serde_json::Value) -> (r: Option<String>)
    ensures
        crate::tool_layer::opt_view(r) == spec_reply_content(*reply),
{
    match reply["choices"][0]["message"]["content"].as_str() {
        Some(s) => Some(s.to_string()),
        None => None,
    }
}

/// What `serde_json::to_string(&value)` writes: the compact JSON text of `value`.
pub uninterp spec fn spec_json_text(value: serde_json::Value) -> Seq<char>;

/// `serde_json::to_string(&value)`; the empty text should it fail, which for a
/// `Value` it does not (its maps have string keys).
#[verifier::external_body]
pub(crate) fn json_to_text(value: &serde_json::Value) -> (r: String)
    ensures
        r@ == spec_json_text(*value),
{
    serde_json::to_string(value).unwrap_or_default()
}

/// What `value[key]` is: the value under `key` when `value` is an object
/// holding one, else null.
pub uninterp spec fn spec_json_field(value: serde_json::Value, key: Seq<char>) -> serde_json::Value;

/// `value[key].clone()`.
#[verifier::external_body]
pub(crate) fn json_field(value: &serde_json::Value, key: &str) -> (r: serde_json::Value)
    ensures
        r == spec_json_field(*value, key@),
{
    value[key].clone()
}

/// What `value[key].as_i64()` gives.
pub uninterp spec fn spec_json_i64_field(value: serde_json::Value, key: Seq<char>) -> Option<i64>;

/// `value[key].as_i64()`.
#[verifier::external_body]
pub(crate) fn json_i64_field(value: &serde_json::Value, key: &str) -> (r: Option<i64>)
    ensures
        r == spec_json_i64_field(*value, key@),
{
    value[key].as_i64()
}

/// What `value[key].is_object()` gives.
pub uninterp spec fn spec_json_is_object(value: serde_json::Value, key: Seq<char>) -> bool;

/// `value[key].is_object()`.
#[verifier::external_body]
pub(crate) fn json_field_is_object(value: &serde_json::Value, key: &str) -> (r: bool)
    ensures
        r == spec_json_is_object(*value, key@),
{
    value[key].is_object()
}

/// What `format!("{:?}", value[key])` writes.
pub uninterp spec fn spec_json_debug(value: serde_json::Value, key: Seq<char>) -> Seq<char>;

/// `format!("{:?}", value[key])`.
#[verifier::external_body]
pub(crate) fn json_field_debug(value: &serde_json::Value, key: &str) -> (r: String)
    ensures
        r@ == spec_json_debug(*value, key@),
{
    format!("{:?}", value[key])
}

/// What `value[key].as_array().map(|a| a.len())` gives.
pub uninterp spec fn spec_json_array_len(value: serde_json::Value, key: Seq<char>) -> Option<usize>;

/// The length of the array under `key`, if there is one.
#[verifier::external_body]
pub(crate) fn json_array_len(value: &serde_json::Value, key: &str) -> (r: Option<usize>)
    ensures
        r == spec_json_array_len(*value, key@),
{
    match value[key].as_array() {
        Some(a) => Some(a.len()),
        None => None,
    }
}

/// What `value[key][i]` is: the `i`-th item of the array under `key`, or
/// null when there is none.
pub uninterp spec fn spec_json_array_item(value: serde_json::Value, key: Seq<char>, i: usize) -> serde_json::Value;

/// `value[key][i].clone()`.
#[verifier::external_body]
pub(crate) fn json_array_item(value: &serde_json::Value, key: &str, i: usize) -> (r: serde_json::Value)
    ensures
        r == spec_json_array_item(*value, key@, i),
{
    value[key][i].clone()
}

/// `Value::clone`: an equal value.
#[verifier::external_body]
pub(crate) fn json_clone(v: &serde_json::Value) -> (r: serde_json::Value)
    ensures
        r == *v,
{
    v.clone()
}

} // verus!
