//! The `serde_json` operations the model loader uses on its configuration
//! files: parsing their bytes, reading members, and the edits it makes.
//! `serde_json::Value` stays opaque; each operation's result is named, and
//! the short facts the documentation gives (a member written is read back,
//! the others stay) are stated beside it.
use vstd::prelude::*;

verus! {

/// The JSON value that `serde_json::from_slice` parses from some bytes, if
/// they hold JSON.
pub uninterp spec fn json_of_bytes(bytes: Seq<u8>) -> Option<serde_json::Value>;

/// The member of a JSON object under a key (`Value::get` with a string):
/// none when the value is not an object or has no such key.
pub uninterp spec fn json_member(v: serde_json::Value, key: Seq<char>) -> Option<serde_json::Value>;

/// The element of a JSON array at an index (`Value::get` with a `usize`):
/// none when the value is not an array or the index is out of bounds.
pub uninterp spec fn json_element(v: serde_json::Value, i: usize) -> Option<serde_json::Value>;

/// The value as an `i64`, when it is an integer that fits (`Value::as_i64`).
pub uninterp spec fn json_i64(v: serde_json::Value) -> Option<i64>;

/// Whether the value is a number (`Value::is_number`).
pub uninterp spec fn json_is_number(v: serde_json::Value) -> bool;

/// Whether the value is an array (`Value::is_array`).
pub uninterp spec fn json_is_array(v: serde_json::Value) -> bool;

/// Whether the value is an object (`Value::is_object`).
pub uninterp spec fn json_is_object(v: serde_json::Value) -> bool;

/// The JSON number made from an `i64` (`Value::from`).
pub uninterp spec fn json_int(n: i64) -> serde_json::Value;

/// The JSON string made from a text (`Value::from`).
pub uninterp spec fn json_text(s: Seq<char>) -> serde_json::Value;

/// The JSON boolean made from a `bool` (`Value::from`).
pub uninterp spec fn json_bool(b: bool) -> serde_json::Value;

/// The JSON array made from a sequence of `i64` (`Value::from`).
pub uninterp spec fn json_ints(v: Seq<i64>) -> serde_json::Value;

/// Parses bytes as JSON.
/// Calls `serde_json::from_slice::<serde_json::Value>`; a parse error
/// becomes `None`. The contract names the outcome, a function of the bytes.
#[verifier::external_body]
pub(crate) fn parse_json_bytes(bytes: &[u8]) -> (r: Option<serde_json::Value>)
    ensures
        r == json_of_bytes(bytes@),
{
    serde_json::from_slice::<serde_json::Value>(bytes).ok()
}

/// Copies a JSON value. Calls `Value::clone`, a deep copy.
#[verifier::external_body]
pub(crate) fn json_clone(v: &serde_json::Value) -> (r: serde_json::Value)
    ensures
        r == *v,
{
    v.clone()
}

/// Reads the member of an object under `key`.
/// Calls `Value::get` with a string index and clones what it finds; the
/// source shows that it finds something only in an object.
#[verifier::external_body]
pub(crate) fn json_get(v: &serde_json::Value, key: &str) -> (r: Option<serde_json::Value>)
    ensures
        r == json_member(*v, key@),
        r is Some ==> json_is_object(*v),
{
    v.get(key).cloned()
}

/// Reads the element of an array at `i`.
/// Calls `Value::get` with a `usize` index and clones what it finds; the
/// source shows that it finds something only in an array.
#[verifier::external_body]
pub(crate) fn json_get_element(v: &serde_json::Value, i: usize) -> (r: Option<serde_json::Value>)
    ensures
        r == json_element(*v, i),
        r is Some ==> json_is_array(*v),
{
    v.get(i).cloned()
}

/// Reads a value as an `i64`.
/// Calls `Value::as_i64`, which gives a value only for numbers.
#[verifier::external_body]
pub(crate) fn json_as_i64(v: &serde_json::Value) -> (r: Option<i64>)
    ensures
        r == json_i64(*v),
        r is Some ==> json_is_number(*v),
{
    v.as_i64()
}

/// Calls `Value::is_number`.
#[verifier::external_body]
pub(crate) fn json_number_test(v: &serde_json::Value) -> (r: bool)
    ensures
        r == json_is_number(*v),
{
    v.is_number()
}

/// Calls `Value::is_array`.
#[verifier::external_body]
pub(crate) fn json_array_test(v: &serde_json::Value) -> (r: bool)
    ensures
        r == json_is_array(*v),
{
    v.is_array()
}

/// Calls `Value::is_object`.
#[verifier::external_body]
pub(crate) fn json_object_test(v: &serde_json::Value) -> (r: bool)
    ensures
        r == json_is_object(*v),
{
    v.is_object()
}

/// Makes a JSON number. Calls `Value::from::<i64>`.
#[verifier::external_body]
pub(crate) fn json_from_i64(n: i64) -> (r: serde_json::Value)
    ensures
        r == json_int(n),
        json_is_number(r),
        !json_is_object(r),
        json_i64(r) == Some(n),
{
    serde_json::Value::from(n)
}

/// Makes a JSON string. Calls `Value::from::<&str>`.
#[verifier::external_body]
pub(crate) fn json_from_str(s: &str) -> (r: serde_json::Value)
    ensures
        r == json_text(s@),
        !json_is_object(r),
{
    serde_json::Value::from(s)
}

/// Makes a JSON boolean. Calls `Value::from::<bool>`.
#[verifier::external_body]
pub(crate) fn json_from_bool(b: bool) -> (r: serde_json::Value)
    ensures
        r == json_bool(b),
        !json_is_object(r),
{
    serde_json::Value::from(b)
}

/// Makes a JSON array of numbers. Calls `Value::from::<Vec<i64>>`.
#[verifier::external_body]
pub(crate) fn json_from_i64s(v: Vec<i64>) -> (r: serde_json::Value)
    ensures
        r == json_ints(v@),
        !json_is_object(r),
{
    serde_json::Value::from(v)
}

/// Makes an empty JSON object. Calls `serde_json::Map::new`.
#[verifier::external_body]
pub(crate) fn json_empty_object() -> (r: serde_json::Value)
    ensures
        json_is_object(r),
        forall|k: Seq<char>| #[trigger] json_member(r, k) is None,
{
    serde_json::Value::Object(serde_json::Map::new())
}

/// Sets the member `key` of an object to `val`.
/// Calls `serde_json::Map::insert` on the object, which adds the key or
/// replaces its value and leaves the other keys as they are.
#[verifier::external_body]
pub(crate) fn json_set(v: &mut serde_json::Value, key: &str, val: serde_json::Value)
    requires
        json_is_object(*old(v)),
    ensures
        json_is_object(*final(v)),
        json_member(*final(v), key@) == Some(val),
        forall|k: Seq<char>| k != key@ ==> #[trigger] json_member(*final(v), k) == json_member(*old(v), k),
{
    if let Some(m) = v.as_object_mut() {
        m.insert(key.to_owned(), val);
    }
}

/// Takes the member `key` out of an object.
/// Calls `serde_json::Map::remove` on the object, which returns the value
/// that was there and leaves the other keys as they are.
#[verifier::external_body]
pub(crate) fn json_take(v: &mut serde_json::Value, key: &str) -> (r: Option<serde_json::Value>)
    requires
        json_is_object(*old(v)),
    ensures
        r == json_member(*old(v), key@),
        json_is_object(*final(v)),
        json_member(*final(v), key@) is None,
        forall|k: Seq<char>| k != key@ ==> #[trigger] json_member(*final(v), k) == json_member(*old(v), k),
{
    match v.as_object_mut() {
        Some(m) => m.remove(key),
        None => None,
    }
}

} // verus!
