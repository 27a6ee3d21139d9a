//! The boundary with `serde_json`: the JSON value type, names for what its
//! accessors return, and one wrapper for each function of the crate that the
//! codec calls. Nothing here is proved; every contract restates what the
//! source of `serde_json` shows.

use serde_json::Value;
use vstd::prelude::*;

verus! {

/// `serde_json::Value`, a JSON document tree. Its inside is not visible to
/// the verifier; the names below stand for what its accessors return.
#[verifier::external_type_specification]
#[verifier::external_body]
pub struct ExValue(serde_json::Value);

/// What `serde_json::from_str::<Value>` makes of a text: the parsed document,
/// or `None` where the text is not one well-formed JSON document.
pub uninterp spec fn json_parse(text: Seq<char>) -> Option<Value>;

/// What `Value::get` returns for a string key: the member stored under `key`
/// when the value is an object that has one, else `None`.
pub uninterp spec fn json_member(v: Value, key: Seq<char>) -> Option<Value>;

/// What `Value::as_str` returns: the text of a JSON string, `None` for every
/// other kind of value.
pub uninterp spec fn json_text(v: Value) -> Option<Seq<char>>;

/// What `Value::is_null` returns: whether the value is JSON `null`.
pub uninterp spec fn json_is_null(v: Value) -> bool;

/// What `Value::as_array` returns: the elements of a JSON array in order,
/// `None` for every other kind of value.
pub uninterp spec fn json_items(v: Value) -> Option<Seq<Value>>;

/// What `serde_json::to_string_pretty` returns for a value: its indented JSON
/// text, or the message of the error that serialisation reports.
pub uninterp spec fn json_pretty(v: Value) -> Result<Seq<char>, Seq<char>>;

/// What `Value::from` makes of a `String`: the JSON string with that text.
pub uninterp spec fn json_string(text: Seq<char>) -> Value;

/// What `Value::from` makes of a vector of values: the JSON array of those
/// elements.
pub uninterp spec fn json_array(items: Seq<Value>) -> Value;

/// What `Value::from` makes of an optional value: the value itself, or JSON
/// `null` for `None`.
pub uninterp spec fn json_optional(item: Option<Value>) -> Value;

/// What `Value::from_iter` makes of key-value pairs: the JSON object with
/// those members, inserted in that order.
pub uninterp spec fn json_object(fields: Seq<(Seq<char>, Value)>) -> Value;

/// Key-value pairs with each key as its text.
pub open spec fn members(fields: Seq<(String, Value)>) -> Seq<(Seq<char>, Value)> {
    fields.map_values(|f: (String, Value)| (f.0@, f.1))
}

/// Whether no two of the pairs share a key.
pub open spec fn keys_distinct(fields: Seq<(Seq<char>, Value)>) -> bool {
    forall|i: int, j: int|
        0 <= i < j < fields.len() ==> (#[trigger] fields[i]).0 != (#[trigger] fields[j]).0
}

/// Calls `serde_json::from_str::<Value>` and drops the error's detail.
/// Claims that the outcome is a function of the text alone.
#[verifier::external_body]
pub(crate) fn parse(text: &str) -> (r: Option<Value>)
    ensures
        r == json_parse(text@),
{
    serde_json::from_str::<Value>(text).ok()
}

/// Calls `Value::get` with a string key, which looks the key up where the
/// value is an object and gives `None` where it is not. Claims that the
/// outcome is a function of the value and the key alone.
#[verifier::external_body]
pub(crate) fn member<'a>(v: &'a Value, key: &str) -> (r: Option<&'a Value>)
    ensures
        match r {
            Some(m) => json_member(*v, key@) == Some(*m),
            None => json_member(*v, key@) is None,
        },
{
    v.get(key)
}

/// Calls `Value::as_str`, which gives the text of a JSON string and `None`
/// for any other value.
#[verifier::external_body]
pub(crate) fn as_text<'a>(v: &'a Value) -> (r: Option<&'a str>)
    ensures
        match r {
            Some(s) => json_text(*v) == Some(s@),
            None => json_text(*v) is None,
        },
{
    v.as_str()
}

/// Calls `Value::is_null`, which tells whether the value is JSON `null`.
#[verifier::external_body]
pub(crate) fn is_null(v: &Value) -> (r: bool)
    ensures
        r == json_is_null(*v),
{
    v.is_null()
}

/// Calls `Value::as_array`, which gives the elements of a JSON array and
/// `None` for any other value.
#[verifier::external_body]
pub(crate) fn as_items<'a>(v: &'a Value) -> (r: Option<&'a Vec<Value>>)
    ensures
        match r {
            Some(items) => json_items(*v) == Some(items@),
            None => json_items(*v) is None,
        },
{
    v.as_array()
}

/// Calls `Value::clone`, which copies the whole document tree: the copy is
/// the same document.
#[verifier::external_body]
pub(crate) fn clone_value(v: &Value) -> (r: Value)
    ensures
        r == *v,
{
    v.clone()
}

/// Calls `Value::from` on an optional value (`From<Option<T>>` with a value
/// for `T`). `None` becomes JSON `null`, of which `is_null` holds and `as_str`
/// gives nothing; `Some` hands its value on unchanged.
#[verifier::external_body]
pub(crate) fn optional_value(item: Option<Value>) -> (v: Value)
    ensures
        v == json_optional(item),
        item is None ==> json_is_null(v) && json_text(v) is None,
        item matches Some(inner) ==> v == inner,
{
    Value::from(item)
}

/// Calls `Value::from` on a `String` (`From<String>`), which makes the JSON
/// string holding that text: `as_str` gives the text back.
#[verifier::external_body]
pub(crate) fn text_value(s: String) -> (v: Value)
    ensures
        v == json_string(s@),
        json_text(v) == Some(s@),
{
    Value::from(s)
}

/// Calls `Value::from` on a vector of values (`From<Vec<T>>` with a value for
/// `T`), which makes the JSON array of those elements in the same order:
/// `as_array` gives them back.
#[verifier::external_body]
pub(crate) fn array_value(items: Vec<Value>) -> (v: Value)
    ensures
        v == json_array(items@),
        json_items(v) == Some(items@),
{
    Value::from(items)
}

/// Calls `Value::from_iter` on key-value pairs (`FromIterator<(K, V)>`),
/// which makes the JSON object with those members, inserted in order. Where
/// the keys are distinct, every pair can be read back through `get`.
#[verifier::external_body]
pub(crate) fn object_value(fields: Vec<(String, Value)>) -> (v: Value)
    ensures
        v == json_object(members(fields@)),
        keys_distinct(members(fields@)) ==> forall|i: int|
            0 <= i < fields.len() ==> json_member(v, (#[trigger] fields[i]).0@) == Some(
                fields[i].1,
            ),
{
    Value::from_iter(fields)
}

/// Calls `serde_json::to_string_pretty`, handing an error on as its message.
/// Claims that the outcome is a function of the value alone.
#[verifier::external_body]
pub(crate) fn pretty(v: &Value) -> (r: Result<String, String>)
    ensures
        match r {
            Ok(text) => json_pretty(*v) == Ok::<Seq<char>, Seq<char>>(text@),
            Err(message) => json_pretty(*v) == Err::<Seq<char>, Seq<char>>(message@),
        },
{
    match serde_json::to_string_pretty(v) {
        Ok(text) => Ok(text),
        Err(e) => Err(e.to_string()),
    }
}

} // verus!
