//! The JSON documents that the event-stream decoder reads, as `serde_json` parses them.
//!
//! A parsed document stays a `serde_json::Value`. Contracts speak of it through
//! [`json_tree`], its shape as a mathematical tree. Nothing in this file is proved:
//! every item states what `serde_json` does.

use vstd::prelude::*;

verus! {

/// The shape of a JSON document. A number carries no payload: nothing here reads one.
pub enum JsonTree {
    Null,
    Bool(bool),
    Number,
    Text(Seq<char>),
    Array(Seq<JsonTree>),
    Object(Map<Seq<char>, JsonTree>),
}

/// `serde_json::Value`, a parsed document. Nothing is seen inside it.
#[verifier::external_type_specification]
#[verifier::external_body]
pub struct ExJsonValue(serde_json::Value);

/// `serde_json::Error`, why a text is no document. Nothing is seen inside it.
#[verifier::external_type_specification]
#[verifier::external_body]
pub struct ExJsonError(serde_json::Error);

/// The tree that a `serde_json::Value` holds: `Value::Null` is `Null`, `Value::String`
/// is `Text` of its characters, `Value::Array` is `Array` of the trees of its elements
/// in order, `Value::Object` is `Object` of the trees of its members by key.
pub uninterp spec fn json_tree(value: serde_json::Value) -> JsonTree;

/// What `serde_json::from_slice::<serde_json::Value>` makes of a text: the tree of the
/// document it returns, or `None` where it returns an error.
pub uninterp spec fn json_parse(text: Seq<u8>) -> Option<JsonTree>;

/// `serde_json::from_slice` into a `serde_json::Value`. The result depends on the
/// bytes alone; [`json_parse`] names it.
#[verifier::external_body]
pub(crate) fn parse_document(text: &[u8]) -> (r: Result<serde_json::Value, serde_json::Error>)
    ensures
        match r {
            Ok(value) => json_parse(text@) == Some(json_tree(value)),
            Err(_) => json_parse(text@) is None,
        },
{
    serde_json::from_slice::<serde_json::Value>(text)
}

/// `serde_json::Value::get` with a string key: the member of that name where the value
/// is an object that has one, `None` for any other value and for a missing key.
#[verifier::external_body]
pub(crate) fn member<'a>(value: &'a serde_json::Value, key: &str) -> (r: Option<
    &'a serde_json::Value,
>)
    ensures
        match json_tree(*value) {
            JsonTree::Object(members) => match r {
                Some(found) => members.contains_key(key@) && json_tree(*found) == members[key@],
                None => !members.contains_key(key@),
            },
            _ => r is None,
        },
{
    value.get(key)
}

/// `serde_json::Value::as_array`: the elements where the value is an array, `None`
/// for any other value.
pub assume_specification<'a>[ serde_json::Value::as_array ](value: &'a serde_json::Value) -> (r:
    Option<&'a Vec<serde_json::Value>>)
    ensures
        match json_tree(*value) {
            JsonTree::Array(items) => {
                &&& r matches Some(found)
                &&& found@.len() == items.len()
                &&& forall|i: int|
                    0 <= i < items.len() ==> json_tree(#[trigger] found@[i]) == items[i]
            },
            _ => r is None,
        },
;

/// `serde_json::Value::as_str`: the string where the value is one, `None` for any
/// other value.
pub assume_specification<'a>[ serde_json::Value::as_str ](value: &'a serde_json::Value) -> (r:
    Option<&'a str>)
    ensures
        match json_tree(*value) {
            JsonTree::Text(text) => r matches Some(found) && found@ == text,
            _ => r is None,
        },
;

/// `serde_json::Value::is_null`: whether the value is `null`.
pub assume_specification[ serde_json::Value::is_null ](value: &serde_json::Value) -> (r: bool)
    ensures
        r == (json_tree(*value) is Null),
;

/// `serde_json::Value::is_object`: whether the value is an object.
pub assume_specification[ serde_json::Value::is_object ](value: &serde_json::Value) -> (r: bool)
    ensures
        r == (json_tree(*value) is Object),
;

} // verus!
