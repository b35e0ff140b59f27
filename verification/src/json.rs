//! Questions put to JSON text through `serde_json`.

use vstd::prelude::*;

verus! {

/// Whether `serde_json::from_str::<Value>` accepts the text.
pub uninterp spec fn json_valid(text: Seq<char>) -> bool;

/// Whether the text parses as a JSON object.
pub uninterp spec fn json_object(text: Seq<char>) -> bool;

/// The string held under `key` at the top of the parsed text, if the text parses and holds one.
pub uninterp spec fn json_str_field(text: Seq<char>, key: Seq<char>) -> Option<Seq<char>>;

/// The string held under `inner` in the object held under `outer`, if there is one.
pub uninterp spec fn json_nested_str_field(text: Seq<char>, outer: Seq<char>, inner: Seq<char>) -> Option<Seq<char>>;

/// Whether the object held under `outer` has the key `inner` (whatever its value).
pub uninterp spec fn json_nested_has_field(text: Seq<char>, outer: Seq<char>, inner: Seq<char>) -> bool;

/// Calls `serde_json::from_str::<serde_json::Value>` and reports whether it succeeded.
#[verifier::external_body]
pub(crate) fn parses_as_json(text: &str) -> (b: bool)
    ensures
        b == json_valid(text@),
{
    serde_json::from_str::<serde_json::Value>(text).is_ok()
}

/// Calls `serde_json::from_str::<serde_json::Value>` and `Value::is_object`.
#[verifier::external_body]
pub(crate) fn parses_as_json_object(text: &str) -> (b: bool)
    ensures
        b == json_object(text@),
{
    match serde_json::from_str::<serde_json::Value>(text) {
        Ok(v) => v.is_object(),
        Err(_) => false,
    }
}

/// Calls `serde_json::from_str::<serde_json::Value>`, `Value::get` and `Value::as_str`.
#[verifier::external_body]
pub(crate) fn json_get_str(text: &str, key: &str) -> (r: Option<String>)
    ensures
        match r {
            Some(s) => json_str_field(text@, key@) == Some(s@),
            None => json_str_field(text@, key@) is None,
        },
{
    serde_json::from_str::<serde_json::Value>(text).ok().and_then(|v| v.get(key).and_then(|f| f.as_str()).map(|s| s.to_string()))
}

/// Calls `serde_json::from_str::<serde_json::Value>`, `Value::get`, `Value::as_object`,
/// `Map::get` and `Value::as_str`.
#[verifier::external_body]
pub(crate) fn json_get_nested_str(text: &str, outer: &str, inner: &str) -> (r: Option<String>)
    ensures
        match r {
            Some(s) => json_nested_str_field(text@, outer@, inner@) == Some(s@),
            None => json_nested_str_field(text@, outer@, inner@) is None,
        },
{
    serde_json::from_str::<serde_json::Value>(text).ok().and_then(
        |v| v.get(outer).and_then(|p| p.as_object()).and_then(|o| o.get(inner)).and_then(|x| x.as_str()).map(|s| s.to_string()),
    )
}

/// Calls `serde_json::from_str::<serde_json::Value>`, `Value::get`, `Value::as_object`
/// and `Map::contains_key`.
#[verifier::external_body]
pub(crate) fn json_has_nested(text: &str, outer: &str, inner: &str) -> (b: bool)
    ensures
        b == json_nested_has_field(text@, outer@, inner@),
{
    match serde_json::from_str::<serde_json::Value>(text) {
        Ok(v) => match v.get(outer).and_then(|p| p.as_object()) {
            Some(o) => o.contains_key(inner),
            None => false,
        },
        Err(_) => false,
    }
}

/// The boolean held under `key` at the top of the parsed text, if the text parses and holds one.
pub uninterp spec fn json_bool_field(text: Seq<char>, key: Seq<char>) -> Option<bool>;

/// The integer held under `key` at the top of the parsed text, if it holds one that fits in `i64`.
pub uninterp spec fn json_i64_field(text: Seq<char>, key: Seq<char>) -> Option<i64>;

/// When the text parses as an object: its values in the order the object holds them, each
/// as its string where it is one.
pub uninterp spec fn json_object_str_values(text: Seq<char>) -> Option<Seq<Option<Seq<char>>>>;

/// Calls `serde_json::from_str::<serde_json::Value>`, `Value::get` and `Value::as_bool`.
#[verifier::external_body]
pub(crate) fn json_get_bool(text: &str, key: &str) -> (r: Option<bool>)
    ensures
        r == json_bool_field(text@, key@),
{
    serde_json::from_str::<serde_json::Value>(text).ok().and_then(|v| v.get(key).and_then(|f| f.as_bool()))
}

/// Calls `serde_json::from_str::<serde_json::Value>`, `Value::get` and `Value::as_i64`.
#[verifier::external_body]
pub(crate) fn json_get_i64(text: &str, key: &str) -> (r: Option<i64>)
    ensures
        r == json_i64_field(text@, key@),
{
    serde_json::from_str::<serde_json::Value>(text).ok().and_then(|v| v.get(key).and_then(|f| f.as_i64()))
}

/// Calls `serde_json::from_str::<serde_json::Value>`, `Map::values` and `Value::as_str`.
#[verifier::external_body]
pub(crate) fn json_str_values(text: &str) -> (r: Option<Vec<Option<String>>>)
    ensures
        match r {
            Some(v) => json_object_str_values(text@) == Some(
                Seq::new(v@.len(), |i: int| match v@[i] {
                    Some(s) => Some(s@),
                    None => None::<Seq<char>>,
                }),
            ),
            None => json_object_str_values(text@) is None,
        },
{
    match serde_json::from_str::<serde_json::Value>(text) {
        Ok(serde_json::Value::Object(obj)) => Some(obj.values().map(|v| v.as_str().map(|s| s.to_string())).collect()),
        _ => None,
    }
}

/// The string at the JSON pointer (`/a/b`) in the parsed text, if the text parses and holds
/// one there.
pub uninterp spec fn json_pointer_str(text: Seq<char>, pointer: Seq<char>) -> Option<Seq<char>>;

/// Calls `serde_json::from_str::<serde_json::Value>`, `Value::pointer` and `Value::as_str`.
#[verifier::external_body]
pub(crate) fn json_get_pointer_str(text: &str, pointer: &str) -> (r: Option<String>)
    ensures
        match r {
            Some(s) => json_pointer_str(text@, pointer@) == Some(s@),
            None => json_pointer_str(text@, pointer@) is None,
        },
{
    serde_json::from_str::<serde_json::Value>(text).ok().and_then(|v| v.pointer(pointer).and_then(|x| x.as_str()).map(|s| s.to_string()))
}

/// The integer at the JSON pointer in the parsed text, if the text parses and holds one there
/// that fits in `i64`.
pub uninterp spec fn json_pointer_i64(text: Seq<char>, pointer: Seq<char>) -> Option<i64>;

/// Calls `serde_json::from_str::<serde_json::Value>`, `Value::pointer` and `Value::as_i64`.
#[verifier::external_body]
pub(crate) fn json_get_pointer_i64(text: &str, pointer: &str) -> (r: Option<i64>)
    ensures
        r == json_pointer_i64(text@, pointer@),
{
    serde_json::from_str::<serde_json::Value>(text).ok().and_then(|v| v.pointer(pointer).and_then(|x| x.as_i64()))
}

/// The JSON text of a string: the string in double quotes, with its special characters escaped.
pub uninterp spec fn json_quoted(s: Seq<char>) -> Seq<char>;

/// Calls `serde_json::to_string` on a `&str`. Serialising a string does not fail; the empty
/// text of the error arm is never produced.
#[verifier::external_body]
pub(crate) fn json_quote(s: &str) -> (r: String)
    ensures
        r@ == json_quoted(s@),
{
    match serde_json::to_string(s) {
        Ok(t) => t,
        Err(_) => String::new(),
    }
}

/// The items of the array held under `key` at the top of the parsed text, each written back
/// as JSON text, if the text parses and holds an array there.
pub uninterp spec fn json_array_items(text: Seq<char>, key: Seq<char>) -> Option<Seq<Seq<char>>>;

/// Calls `serde_json::from_str::<serde_json::Value>`, `Value::get`, `Value::as_array` and
/// `Value::to_string` on each item.
#[verifier::external_body]
pub(crate) fn json_get_array_items(text: &str, key: &str) -> (r: Option<Vec<String>>)
    ensures
        match r {
            Some(v) => json_array_items(text@, key@) == Some(Seq::new(v@.len(), |i: int| v@[i]@)),
            None => json_array_items(text@, key@) is None,
        },
{
    serde_json::from_str::<serde_json::Value>(text).ok().and_then(|v| v.get(key).and_then(|a| a.as_array()).map(|a| a.iter().map(|x| x.to_string()).collect()))
}

/// The value at the JSON pointer in the parsed text, written back as JSON text, if the text
/// parses and holds a value there.
pub uninterp spec fn json_pointer_text(text: Seq<char>, pointer: Seq<char>) -> Option<Seq<char>>;

/// Calls `serde_json::from_str::<serde_json::Value>`, `Value::pointer` and `Value::to_string`.
#[verifier::external_body]
pub(crate) fn json_get_pointer_text(text: &str, pointer: &str) -> (r: Option<String>)
    ensures
        match r {
            Some(s) => json_pointer_text(text@, pointer@) == Some(s@),
            None => json_pointer_text(text@, pointer@) is None,
        },
{
    serde_json::from_str::<serde_json::Value>(text).ok().and_then(|v| v.pointer(pointer).map(|x| x.to_string()))
}

/// When the text parses as an object: its entries in the order the object holds them, each
/// value written back as JSON text.
pub uninterp spec fn json_object_entries(text: Seq<char>) -> Option<Seq<(Seq<char>, Seq<char>)>>;

/// Calls `serde_json::from_str::<serde_json::Value>`, `Map::iter` and `Value::to_string`.
#[verifier::external_body]
pub(crate) fn json_get_object_entries(text: &str) -> (r: Option<Vec<(String, String)>>)
    ensures
        match r {
            Some(v) => json_object_entries(text@) == Some(Seq::new(v@.len(), |i: int| (v@[i].0@, v@[i].1@))),
            None => json_object_entries(text@) is None,
        },
{
    match serde_json::from_str::<serde_json::Value>(text) {
        Ok(serde_json::Value::Object(obj)) => Some(obj.iter().map(|(k, v)| (k.clone(), v.to_string())).collect()),
        _ => None,
    }
}

/// The string the text is, if it parses as a JSON string.
pub uninterp spec fn json_string_value(text: Seq<char>) -> Option<Seq<char>>;

/// Calls `serde_json::from_str::<serde_json::Value>` and `Value::as_str`.
#[verifier::external_body]
pub(crate) fn json_as_string(text: &str) -> (r: Option<String>)
    ensures
        match r {
            Some(s) => json_string_value(text@) == Some(s@),
            None => json_string_value(text@) is None,
        },
{
    serde_json::from_str::<serde_json::Value>(text).ok().and_then(|v| v.as_str().map(|s| s.to_string()))
}

/// The unsigned integer held under `key` at the top of the parsed text, if it holds one that
/// fits in `u64`.
pub uninterp spec fn json_u64_field(text: Seq<char>, key: Seq<char>) -> Option<u64>;

/// Calls `serde_json::from_str::<serde_json::Value>`, `Value::get` and `Value::as_u64`.
#[verifier::external_body]
pub(crate) fn json_get_u64(text: &str, key: &str) -> (r: Option<u64>)
    ensures
        r == json_u64_field(text@, key@),
{
    serde_json::from_str::<serde_json::Value>(text).ok().and_then(|v| v.get(key).and_then(|f| f.as_u64()))
}

/// The boolean at the JSON pointer in the parsed text, if the text parses and holds one there.
pub uninterp spec fn json_pointer_bool(text: Seq<char>, pointer: Seq<char>) -> Option<bool>;

/// Calls `serde_json::from_str::<serde_json::Value>`, `Value::pointer` and `Value::as_bool`.
#[verifier::external_body]
pub(crate) fn json_get_pointer_bool(text: &str, pointer: &str) -> (r: Option<bool>)
    ensures
        r == json_pointer_bool(text@, pointer@),
{
    serde_json::from_str::<serde_json::Value>(text).ok().and_then(|v| v.pointer(pointer).and_then(|x| x.as_bool()))
}

} // verus!
