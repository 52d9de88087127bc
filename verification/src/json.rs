//! JSON values. A `serde_json::Value` carries every request and reply; what
//! one holds is named by `json`, as a tree of plain values.

use serde_json::Value;
use vstd::prelude::*;

verus! {

/// A JSON value as a tree. Numbers that are no unsigned integer of 64 bits
/// are carried and never looked into.
pub enum JsonView {
    Null,
    Bool(bool),
    UInt(u64),
    Number(serde_json::Number),
    Str(Seq<char>),
    Array(Seq<JsonView>),
    Object(Map<Seq<char>, JsonView>),
}

/// `serde_json::Number`, which is carried and never looked into.
#[verifier::external_type_specification]
#[verifier::external_body]
pub struct ExNumber(serde_json::Number);

/// `serde_json::Value`. What one holds is named by `json`.
#[verifier::external_type_specification]
#[verifier::external_body]
pub struct ExValue(serde_json::Value);

/// What a JSON value holds.
pub uninterp spec fn json(value: Value) -> JsonView;

/// What a text says as JSON; nothing where it is no JSON text.
pub uninterp spec fn json_of_text(text: Seq<char>) -> Option<JsonView>;

/// What bytes say as JSON; nothing where they are no JSON text.
pub uninterp spec fn json_of_bytes(bytes: Seq<u8>) -> Option<JsonView>;

/// A JSON value written out as text.
pub uninterp spec fn json_text(value: JsonView) -> Seq<char>;

/// What an optional JSON value holds.
pub open spec fn json_opt(value: Option<Value>) -> Option<JsonView> {
    match value {
        Some(v) => Some(json(v)),
        None => None,
    }
}

/// What each of several JSON values holds.
pub open spec fn json_all(values: Seq<Value>) -> Seq<JsonView> {
    values.map_values(|v: Value| json(v))
}

/// `serde_json::from_str` into a `Value`: the value, or nothing on an error,
/// depends on the text alone. The grammar itself is not stated.
#[verifier::external_body]
pub(crate) fn parse(text: &str) -> (r: Option<Value>)
    ensures
        json_opt(r) == json_of_text(text@),
{
    serde_json::from_str(text).ok()
}

/// `serde_json::from_slice` into a `Value`: the value, or nothing on an error,
/// depends on the bytes alone. The grammar itself is not stated.
#[verifier::external_body]
pub(crate) fn parse_bytes(bytes: &[u8]) -> (r: Option<Value>)
    ensures
        json_opt(r) == json_of_bytes(bytes@),
{
    serde_json::from_slice(bytes).ok()
}

/// `Value`'s `to_string`: the compact text depends on what the value holds
/// alone, and control characters are escaped in it, so it is one line. How
/// each value is written is not stated further.
#[verifier::external_body]
pub(crate) fn render(value: &Value) -> (r: String)
    ensures
        r@ == json_text(json(*value)),
        !r@.contains('\n'),
{
    value.to_string()
}

/// `Value::get` with a key: the member of an object under that key, and
/// nothing where there is none or the value is no object.
#[verifier::external_body]
pub(crate) fn get<'a>(value: &'a Value, key: &str) -> (r: Option<&'a Value>)
    ensures
        match r {
            Some(v) => member(json(*value), key@) == Some(json(*v)),
            None => member(json(*value), key@) is None,
        },
{
    value.get(key)
}

/// `Value::as_str`: the text of a string, and nothing of any other value.
#[verifier::external_body]
pub(crate) fn as_str(value: &Value) -> (r: Option<&str>)
    ensures
        match r {
            Some(s) => json(*value) == JsonView::Str(s@),
            None => !(json(*value) is Str),
        },
{
    value.as_str()
}

/// `Value::as_u64`: an unsigned integer of 64 bits, and nothing of any other
/// value.
#[verifier::external_body]
pub(crate) fn as_u64(value: &Value) -> (r: Option<u64>)
    ensures
        match r {
            Some(n) => json(*value) == JsonView::UInt(n),
            None => !(json(*value) is UInt),
        },
{
    value.as_u64()
}

/// `Value::as_bool`: a boolean, and nothing of any other value.
#[verifier::external_body]
pub(crate) fn as_bool(value: &Value) -> (r: Option<bool>)
    ensures
        match r {
            Some(b) => json(*value) == JsonView::Bool(b),
            None => !(json(*value) is Bool),
        },
{
    value.as_bool()
}

/// `Value`'s `clone`: a value that holds the same.
#[verifier::external_body]
pub(crate) fn copy(value: &Value) -> (r: Value)
    ensures
        json(r) == json(*value),
{
    value.clone()
}

/// `Value::Null`.
#[verifier::external_body]
pub(crate) fn null() -> (r: Value)
    ensures
        json(r) == JsonView::Null,
{
    Value::Null
}

/// `Value::from` a boolean.
#[verifier::external_body]
pub(crate) fn boolean(b: bool) -> (r: Value)
    ensures
        json(r) == JsonView::Bool(b),
{
    Value::from(b)
}

/// `Value::from` an unsigned integer.
#[verifier::external_body]
pub(crate) fn uint(n: u64) -> (r: Value)
    ensures
        json(r) == JsonView::UInt(n),
{
    Value::from(n)
}

/// `Value::from` a text.
#[verifier::external_body]
pub(crate) fn string(s: &str) -> (r: Value)
    ensures
        json(r) == JsonView::Str(s@),
{
    Value::from(s)
}

/// `Value::from` a vector of values: an array of them, in order.
#[verifier::external_body]
pub(crate) fn array(values: Vec<Value>) -> (r: Value)
    ensures
        json(r) == JsonView::Array(json_all(values@)),
{
    Value::from(values)
}

/// `Value::from` an empty `serde_json::Map`: an object without members.
#[verifier::external_body]
pub(crate) fn object() -> (r: Value)
    ensures
        json(r) == JsonView::Object(Map::empty()),
{
    Value::from(serde_json::Map::new())
}

/// `IndexMut` on an object: the value becomes the member under the key, and
/// the other members stay. On another value it would panic (or, on null, make
/// an object).
#[verifier::external_body]
pub(crate) fn set(value: &mut Value, key: &str, v: Value)
    requires
        json(*old(value)) is Object,
    ensures
        json(*final(value)) == JsonView::Object(json(*old(value))->Object_0.insert(key@, json(v))),
{
    value[key] = v;
}

/// The member of an object under a key.
pub open spec fn member(value: JsonView, key: Seq<char>) -> Option<JsonView> {
    match value {
        JsonView::Object(members) => if members.dom().contains(key) {
            Some(members[key])
        } else {
            None
        },
        _ => None,
    }
}

/// The text under a key, where a text stands there.
pub open spec fn text_member(value: JsonView, key: Seq<char>) -> Option<Seq<char>> {
    match member(value, key) {
        Some(JsonView::Str(s)) => Some(s),
        _ => None,
    }
}

/// The unsigned number under a key, where one stands there.
pub open spec fn uint_member(value: JsonView, key: Seq<char>) -> Option<u64> {
    match member(value, key) {
        Some(JsonView::UInt(n)) => Some(n),
        _ => None,
    }
}

/// The boolean under a key, where one stands there.
pub open spec fn bool_member(value: JsonView, key: Seq<char>) -> Option<bool> {
    match member(value, key) {
        Some(JsonView::Bool(b)) => Some(b),
        _ => None,
    }
}

/// The text under a key, the empty one where none stands there.
pub open spec fn text_or_empty(value: JsonView, key: Seq<char>) -> Seq<char> {
    match text_member(value, key) {
        Some(s) => s,
        None => Seq::empty(),
    }
}

/// The text under a key, where a text stands there.
pub fn get_text<'a>(value: &'a Value, key: &str) -> (r: Option<&'a str>)
    ensures
        match r {
            Some(s) => text_member(json(*value), key@) == Some(s@),
            None => text_member(json(*value), key@) is None,
        },
{
    match get(value, key) {
        Some(v) => as_str(v),
        None => None,
    }
}

/// The text under a key, the empty one where none stands there.
pub fn get_text_or_empty(value: &Value, key: &str) -> (r: String)
    ensures
        r@ == text_or_empty(json(*value), key@),
{
    match get_text(value, key) {
        Some(s) => s.to_owned(),
        None => String::new(),
    }
}

/// The unsigned number under a key, where one stands there.
pub fn get_uint(value: &Value, key: &str) -> (r: Option<u64>)
    ensures
        r == uint_member(json(*value), key@),
{
    match get(value, key) {
        Some(v) => as_u64(v),
        None => None,
    }
}

/// The boolean under a key, where one stands there.
pub fn get_bool(value: &Value, key: &str) -> (r: Option<bool>)
    ensures
        r == bool_member(json(*value), key@),
{
    match get(value, key) {
        Some(v) => as_bool(v),
        None => None,
    }
}

}
