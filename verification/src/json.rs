//! JSON documents as the registry sees them: opaque values of `serde_json`,
//! each standing for the compact text that `serde_json` writes for it.

use vstd::prelude::*;

verus! {

/// `serde_json::Value`: a JSON value, carried as it is and never looked
/// into.
#[verifier::external_type_specification]
#[verifier::external_body]
pub struct ExValue(serde_json::Value);

/// The content of a JSON value: the compact text `serde_json` writes for it.
pub uninterp spec fn json_text(v: serde_json::Value) -> Seq<u8>;

/// What `serde_json::from_slice` makes of a byte string: the content of the
/// value it reads, or the text of the error it reports.
pub uninterp spec fn json_parsed(bytes: Seq<u8>) -> Result<Seq<u8>, Seq<char>>;

/// What `Value::get` finds under a string key in the value with the given
/// content: the content of the member, or nothing.
pub uninterp spec fn json_member(text: Seq<u8>, key: Seq<char>) -> Option<Seq<u8>>;

/// What `Value::as_str` returns for the value with the given content: the
/// string it holds, or nothing when it is not a string.
pub uninterp spec fn json_string(text: Seq<u8>) -> Option<Seq<char>>;

/// The content of JSON `null`: the four bytes `null`.
pub open spec fn null_text() -> Seq<u8> {
    seq![110u8, 117u8, 108u8, 108u8]
}

/// `serde_json::from_slice` at type `Value`, its error turned into its
/// `Display` text. The outcome is the one [`json_parsed`] names.
#[verifier::external_body]
pub(crate) fn json_from_slice(bytes: &[u8]) -> (r: Result<serde_json::Value, String>)
    ensures
        match r {
            Ok(v) => json_parsed(bytes@) == Ok::<Seq<u8>, Seq<char>>(json_text(v)),
            Err(m) => json_parsed(bytes@) == Err::<Seq<u8>, Seq<char>>(m@),
        },
{
    serde_json::from_slice::<serde_json::Value>(bytes).map_err(|e| e.to_string())
}

/// `serde_json::to_vec` on a `Value`, its error turned into its `Display`
/// text. Writing a `Value` into a byte vector reports no error: the call
/// succeeds, and the bytes are the value's content.
#[verifier::external_body]
pub(crate) fn json_to_vec(v: &serde_json::Value) -> (r: Result<Vec<u8>, String>)
    ensures
        r is Ok,
        r matches Ok(bytes) ==> bytes@ == json_text(*v),
{
    serde_json::to_vec(v).map_err(|e| e.to_string())
}

/// `Value::get` with a string key. The member found is the one
/// [`json_member`] names.
#[verifier::external_body]
pub(crate) fn json_get<'a>(v: &'a serde_json::Value, key: &str) -> (r: Option<&'a serde_json::Value>)
    ensures
        match r {
            Some(m) => json_member(json_text(*v), key@) == Some(json_text(*m)),
            None => json_member(json_text(*v), key@) is None,
        },
{
    v.get(key)
}

/// `Value::as_str`. The string found is the one [`json_string`] names.
#[verifier::external_body]
pub(crate) fn json_as_str<'a>(v: &'a serde_json::Value) -> (r: Option<&'a str>)
    ensures
        match r {
            Some(s) => json_string(json_text(*v)) == Some(s@),
            None => json_string(json_text(*v)) is None,
        },
{
    v.as_str()
}

/// The value `Value::Null`, whose content is the text `null`.
#[verifier::external_body]
pub(crate) fn json_null() -> (r: serde_json::Value)
    ensures
        json_text(r) == null_text(),
{
    serde_json::Value::Null
}

/// The value `Value::String` of a text: a JSON string that holds it.
#[verifier::external_body]
pub(crate) fn json_text_value(s: &str) -> (r: serde_json::Value)
    ensures
        json_string(json_text(r)) == Some(s@),
{
    serde_json::Value::String(s.to_owned())
}

/// True when no key occurs twice among the entries.
pub open spec fn distinct_keys(entries: Seq<(String, serde_json::Value)>) -> bool {
    forall|i: int, j: int|
        0 <= i < j < entries.len() ==> (#[trigger] entries[i]).0@ != (#[trigger] entries[j]).0@
}

/// The value `Value::Object` of the map that `serde_json::Map::from_iter`
/// collects the entries into. With distinct keys, each entry is a member of
/// the object under its key, and the object has no other member.
#[verifier::external_body]
pub(crate) fn json_object(entries: Vec<(String, serde_json::Value)>) -> (r: serde_json::Value)
    ensures
        distinct_keys(entries@) ==> forall|i: int|
            0 <= i < entries.len() ==> json_member(json_text(r), (#[trigger] entries[i]).0@)
                == Some(json_text(entries[i].1)),
        forall|key: Seq<char>|
            (forall|i: int| 0 <= i < entries.len() ==> (#[trigger] entries[i]).0@ != key)
                ==> json_member(json_text(r), key) is None,
{
    serde_json::Value::Object(serde_json::Map::from_iter(entries))
}

/// `Value::clone`: a value with the same content.
#[verifier::external_body]
pub(crate) fn json_clone(v: &serde_json::Value) -> (r: serde_json::Value)
    ensures
        json_text(r) == json_text(*v),
{
    v.clone()
}

/// The items of the array value with the given content, in order, each by
/// its content; nothing when the value is not an array.
pub uninterp spec fn json_items(text: Seq<u8>) -> Option<Seq<Seq<u8>>>;

/// The contents of a list of values.
pub open spec fn contents_of(items: Seq<serde_json::Value>) -> Seq<Seq<u8>> {
    Seq::new(items.len(), |i: int| json_text(items[i]))
}

/// The value `Value::Array` of a list of values: an array that holds them,
/// in order.
#[verifier::external_body]
pub(crate) fn json_array(items: Vec<serde_json::Value>) -> (r: serde_json::Value)
    ensures
        json_items(json_text(r)) == Some(contents_of(items@)),
{
    serde_json::Value::Array(items)
}

} // verus!
