//! The JSON payload type carried by nodes and settings, and the few
//! operations the graph logic performs on it.

use crate::text::opt_text;
use vstd::prelude::*;

verus! {

/// `serde_json::Value`, carried through as an opaque payload.
#[verifier::external_type_specification]
#[verifier::external_body]
pub struct ExValue(serde_json::Value);

/// The text `serde_json::to_string_pretty` produces for a payload:
/// two-space indentation, one member per line, keys in the order the
/// payload's map yields them.
pub uninterp spec fn pretty_json(value: serde_json::Value) -> Seq<char>;

/// Calls `serde_json::to_string_pretty` on the payload. The result is the
/// payload's pretty-printed text; a serialisation failure yields the empty
/// string, and `pretty_json` stands for that outcome too.
#[verifier::external_body]
pub(crate) fn to_pretty_text(value: &serde_json::Value) -> (text: String)
    ensures
        text@ == pretty_json(*value),
{
    serde_json::to_string_pretty(value).unwrap_or_default()
}

/// Builds `serde_json::Value::Object` over a new `serde_json::Map`: the
/// object without members, which pretty-prints as `{}`.
#[verifier::external_body]
pub(crate) fn empty_object() -> (value: serde_json::Value)
    ensures
        pretty_json(value) == "{}"@,
{
    serde_json::Value::Object(serde_json::Map::new())
}

/// Builds `serde_json::Value::Null`, the payload that stands for nothing
/// and pretty-prints as `null`.
#[verifier::external_body]
pub(crate) fn null_value() -> (value: serde_json::Value)
    ensures
        pretty_json(value) == "null"@,
{
    serde_json::Value::Null
}

/// The text of the member `key` of a payload: what `serde_json::Value::get`
/// finds under the key, where the payload is an object that has it, read
/// with `Value::as_str`, which gives a text only for a string.
pub uninterp spec fn json_string_member(value: serde_json::Value, key: Seq<char>) -> Option<
    Seq<char>,
>;

/// Looks the member up with `serde_json::Value::get` and reads it with
/// `Value::as_str`. There is no text where the payload is no object, has
/// no such member, or the member is no string.
#[verifier::external_body]
pub(crate) fn string_member(value: &serde_json::Value, key: &str) -> (r: Option<String>)
    ensures
        opt_text(r) == json_string_member(*value, key@),
{
    value.get(key).and_then(|member| member.as_str()).map(|text| text.to_string())
}

/// `Clone::clone` of `serde_json::Value`: a deep copy, equal to the payload
/// it was made from.
pub assume_specification[ <serde_json::Value as Clone>::clone ](
    value: &serde_json::Value,
) -> (copy: serde_json::Value)
    ensures
        copy == *value,
;

} // verus!
