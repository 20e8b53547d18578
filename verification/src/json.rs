//! Reading JSON documents produced by the backends. Parsing and field lookup
//! are `serde_json`'s; a document is carried as an opaque `serde_json::Value`
//! and every read hands back a plain value that the verified code works on.
//! Verus sees no structure inside a `Value`; what a pointer lookup finds in
//! a document is named per accessor, a function of the document and the
//! pointer, so the readers built on them are specified over those names.

use vstd::prelude::*;

verus! {

#[verifier::external_type_specification]
#[verifier::external_body]
pub struct ExJsonValue(serde_json::Value);

/// The view of an optional string.
pub open spec fn opt_seq_of(o: Option<String>) -> Option<Seq<char>> {
    match o {
        Some(s) => Some(s@),
        None => None,
    }
}

/// Whether bytes are a JSON document `serde_json::from_slice` accepts.
pub uninterp spec fn json_bytes_parse(raw: Seq<u8>) -> bool;

/// Whether bytes are a JSON array `serde_json::from_slice::<Vec<Value>>`
/// accepts.
pub uninterp spec fn json_bytes_array(raw: Seq<u8>) -> bool;

/// The elements of the JSON array the bytes hold, in order.
pub uninterp spec fn json_bytes_array_elems(raw: Seq<u8>) -> Seq<serde_json::Value>;

/// The document `serde_json::from_slice` parses bytes into.
pub uninterp spec fn json_bytes_value(raw: Seq<u8>) -> serde_json::Value;

/// `serde_json::from_slice` into a `Value`; a parse error is handed back as
/// its `Display` text. Whether it parses is named by [`json_bytes_parse`],
/// the document by [`json_bytes_value`]; the wording of the error is not
/// stated.
#[verifier::external_body]
pub fn json_parse(raw: &[u8]) -> (r: Result<serde_json::Value, String>)
    ensures
        r is Ok == json_bytes_parse(raw@),
        r matches Ok(v) ==> v == json_bytes_value(raw@),
{
    serde_json::from_slice::<serde_json::Value>(raw).map_err(|e| e.to_string())
}

/// The `Display` text of the error `serde_json::from_slice::<Vec<Value>>`
/// gives for bytes that are not a JSON array.
pub uninterp spec fn json_array_error(raw: Seq<u8>) -> Seq<char>;

/// `serde_json::from_slice` into a `Vec<Value>` (the document must be an
/// array); a parse error is handed back as its `Display` text. Whether it
/// parses is named by [`json_bytes_array`], the elements by
/// [`json_bytes_array_elems`] and the error's text by [`json_array_error`].
#[verifier::external_body]
pub fn json_parse_array(raw: &[u8]) -> (r: Result<Vec<serde_json::Value>, String>)
    ensures
        r is Ok == json_bytes_array(raw@),
        r matches Ok(a) ==> a@ == json_bytes_array_elems(raw@),
        r matches Err(m) ==> m@ == json_array_error(raw@),
{
    serde_json::from_slice::<Vec<serde_json::Value>>(raw).map_err(|e| e.to_string())
}

/// The string at a JSON pointer of a document, if the pointer resolves to a
/// string. A `Value` is an immutable document, so what a lookup finds is a
/// function of the document and the pointer.
pub uninterp spec fn json_at_str(v: serde_json::Value, pointer: Seq<char>) -> Option<Seq<char>>;

/// The text of a number (its JSON text) or a string (its contents) at a
/// JSON pointer.
pub uninterp spec fn json_at_id_text(v: serde_json::Value, pointer: Seq<char>) -> Option<Seq<char>>;

/// The JSON text of the value at a JSON pointer.
pub uninterp spec fn json_at_text(v: serde_json::Value, pointer: Seq<char>) -> Option<Seq<char>>;

/// The `i64` at a JSON pointer.
pub uninterp spec fn json_at_i64(v: serde_json::Value, pointer: Seq<char>) -> Option<i64>;

/// The `u64` at a JSON pointer.
pub uninterp spec fn json_at_u64(v: serde_json::Value, pointer: Seq<char>) -> Option<u64>;

/// The boolean at a JSON pointer.
pub uninterp spec fn json_at_bool(v: serde_json::Value, pointer: Seq<char>) -> Option<bool>;

/// Whether a JSON pointer resolves.
pub uninterp spec fn json_at_has(v: serde_json::Value, pointer: Seq<char>) -> bool;

/// The elements of the array at a JSON pointer.
pub uninterp spec fn json_at_array(v: serde_json::Value, pointer: Seq<char>) -> Option<Seq<serde_json::Value>>;

/// `Value::pointer` followed by `as_str`: the string at a JSON pointer, if the
/// pointer resolves to a string. What it finds is named by [`json_at_str`].
#[verifier::external_body]
pub fn json_str(v: &serde_json::Value, pointer: &str) -> (r: Option<String>)
    ensures
        opt_seq_of(r) == json_at_str(*v, pointer@),
{
    v.pointer(pointer).and_then(|x| x.as_str()).map(|s| s.to_string())
}

/// The value at a JSON pointer as text, when it is a number (its JSON text)
/// or a string (its contents). What it finds is named by [`json_at_id_text`].
#[verifier::external_body]
pub fn json_id_text(v: &serde_json::Value, pointer: &str) -> (r: Option<String>)
    ensures
        opt_seq_of(r) == json_at_id_text(*v, pointer@),
{
    match v.pointer(pointer) {
        Some(serde_json::Value::Number(n)) => Some(n.to_string()),
        Some(serde_json::Value::String(s)) => Some(s.clone()),
        _ => None,
    }
}

/// `Value::pointer` followed by `to_string`: the JSON text of the value at a
/// pointer (a string comes back quoted). What it finds is named by
/// [`json_at_text`].
#[verifier::external_body]
pub fn json_text(v: &serde_json::Value, pointer: &str) -> (r: Option<String>)
    ensures
        opt_seq_of(r) == json_at_text(*v, pointer@),
{
    v.pointer(pointer).map(|x| x.to_string())
}

/// `Value::pointer` followed by `as_i64`. What it finds is named by
/// [`json_at_i64`].
#[verifier::external_body]
pub fn json_i64(v: &serde_json::Value, pointer: &str) -> (r: Option<i64>)
    ensures
        r == json_at_i64(*v, pointer@),
{
    v.pointer(pointer).and_then(|x| x.as_i64())
}

/// `Value::pointer` followed by `as_u64`. What it finds is named by
/// [`json_at_u64`].
#[verifier::external_body]
pub fn json_u64(v: &serde_json::Value, pointer: &str) -> (r: Option<u64>)
    ensures
        r == json_at_u64(*v, pointer@),
{
    v.pointer(pointer).and_then(|x| x.as_u64())
}

/// `Value::pointer` followed by `as_bool`. What it finds is named by
/// [`json_at_bool`].
#[verifier::external_body]
pub fn json_bool(v: &serde_json::Value, pointer: &str) -> (r: Option<bool>)
    ensures
        r == json_at_bool(*v, pointer@),
{
    v.pointer(pointer).and_then(|x| x.as_bool())
}

/// Whether `Value::pointer` resolves (to any value, `null` included), as
/// named by [`json_at_has`].
#[verifier::external_body]
pub fn json_has(v: &serde_json::Value, pointer: &str) -> (r: bool)
    ensures
        r == json_at_has(*v, pointer@),
{
    v.pointer(pointer).is_some()
}

/// `Value::pointer` followed by `as_array`, cloned (a clone of a `Value` is
/// the same document). What it finds is named by [`json_at_array`].
#[verifier::external_body]
pub fn json_array(v: &serde_json::Value, pointer: &str) -> (r: Option<Vec<serde_json::Value>>)
    ensures
        match r {
            Some(a) => json_at_array(*v, pointer@) == Some(a@),
            None => json_at_array(*v, pointer@) is None,
        },
{
    v.pointer(pointer).and_then(|x| x.as_array()).cloned()
}

/// The member `key` of a JSON object; `None` when it has no such member or
/// the value is not an object.
pub uninterp spec fn json_get_of(v: serde_json::Value, key: Seq<char>) -> Option<serde_json::Value>;

/// `Value::get` with a string key, cloned (a clone of a `Value` is the same
/// document). What it finds is named by [`json_get_of`].
#[verifier::external_body]
pub fn json_get(v: &serde_json::Value, key: &str) -> (r: Option<serde_json::Value>)
    ensures
        r == json_get_of(*v, key@),
{
    v.get(key).cloned()
}

/// Whether a JSON value is `null`.
pub uninterp spec fn json_null_of(v: serde_json::Value) -> bool;

/// `Value::is_null`, named by [`json_null_of`].
#[verifier::external_body]
pub fn json_is_null(v: &serde_json::Value) -> (r: bool)
    ensures
        r == json_null_of(*v),
{
    v.is_null()
}

/// `Clone` for `Value` (derived): the copy is the same document.
#[verifier::external_body]
pub fn json_clone(v: &serde_json::Value) -> (r: serde_json::Value)
    ensures
        r == *v,
{
    v.clone()
}

} // verus!
