//! The boundary to `serde_json`. Everything here is taken on trust: Verus
//! believes these contracts and does not see the code behind them.

use vstd::prelude::*;
use serde_json::Value;

verus! {

/// `serde_json::Value`, opaque here: what the gateway reads of a value is
/// named by `text_of` and `members_of`.
#[verifier::external_type_specification]
#[verifier::external_body]
pub struct ExValue(serde_json::Value);

/// `serde_json::Map`, opaque here: what a map of JSON values holds is named
/// by `object_members`.
#[verifier::external_type_specification]
#[verifier::external_body]
#[verifier::reject_recursive_types(K)]
#[verifier::reject_recursive_types(V)]
pub struct ExObject<K, V>(serde_json::Map<K, V>);

/// The members that a JSON object holds, by key.
pub uninterp spec fn object_members(object: serde_json::Map<String, Value>) -> Map<
    Seq<char>,
    Value,
>;

/// What `Value::as_str` gives for a value: its characters where it is a JSON
/// string, nothing otherwise.
pub uninterp spec fn text_of(value: Value) -> Option<Seq<char>>;

/// What `Value::as_object_mut` gives for a value: its members where it is a
/// JSON object, nothing otherwise.
pub uninterp spec fn members_of(value: Value) -> Option<Map<Seq<char>, Value>>;

/// `serde_json::Value::as_str`: the string slice inside a `Value::String`, and
/// `None` for every other variant.
pub assume_specification<'a>[ serde_json::Value::as_str ](value: &'a Value) -> (text: Option<
    &'a str,
>)
    ensures
        match text {
            Some(s) => text_of(*value) == Some(s@),
            None => text_of(*value) is None,
        },
;

/// `serde_json::Value::as_object_mut`: a mutable reference to the map inside a
/// `Value::Object`, and `None` for every other variant. The value is an object
/// with the members of that map, before the call and, with whatever is done
/// through the reference, after it; a value that is no object stays as it is.
pub assume_specification[ serde_json::Value::as_object_mut ](value: &mut Value) -> (object: Option<
    &mut serde_json::Map<String, Value>,
>)
    ensures
        match object {
            Some(members) => members_of(*old(value)) == Some(object_members(*members))
                && members_of(*final(value)) == Some(object_members(*final(members))),
            None => members_of(*old(value)) is None && *final(value) == *old(value),
        },
;

/// `serde_json::Map::get` with a string slice as the key: the value stored
/// under `key`, or `None` where the map has no such key.
#[verifier::external_body]
pub(crate) fn member<'a>(object: &'a serde_json::Map<String, Value>, key: &str) -> (found: Option<
    &'a Value,
>)
    ensures
        match found {
            Some(value) => object_members(*object).contains_key(key@) && object_members(
                *object,
            )[key@] == *value,
            None => !object_members(*object).contains_key(key@),
        },
{
    object.get(key)
}

/// `serde_json::Map::remove` with a string slice as the key: afterwards the
/// map has no member under `key`, and every other member is as before.
#[verifier::external_body]
pub(crate) fn remove_member(object: &mut serde_json::Map<String, Value>, key: &str)
    ensures
        object_members(*final(object)) == object_members(*old(object)).remove(key@),
{
    object.remove(key);
}

} // verus!
