//! Named fields, held in a `serde_json::Map`.
//!
//! Headers, cookies, body fields and the data handed to a page template are
//! all maps from a name to a JSON value. Verus does not look inside such a
//! map. What this module states about it is believed, not proved: two names
//! for what a map holds, and one contract for each method that the library
//! calls.

use crate::text::texts;
use vstd::prelude::*;

verus! {

/// `serde_json::Map`, taken as it is: nothing is known of what is inside.
#[verifier::external_type_specification]
#[verifier::external_body]
#[verifier::reject_recursive_types(K)]
#[verifier::reject_recursive_types(V)]
pub struct ExJsonMap<K, V>(serde_json::Map<K, V>);

/// `serde_json::Value`, taken as it is: nothing is known of what is inside.
#[verifier::external_type_specification]
#[verifier::external_body]
pub struct ExJsonValue(serde_json::Value);

/// A value that is put under a name: a text or a list of texts.
pub(crate) enum FieldValue<'a> {
    Text(String),
    List(&'a Vec<String>),
}

/// The entries of `m` whose value is a JSON string: each such key with the
/// text of its value.
pub uninterp spec fn text_entries(m: serde_json::Map<String, serde_json::Value>) -> Map<Seq<char>, Seq<char>>;

/// The entries of `m` whose value is a JSON array of strings: each such key
/// with the texts of the array, in order.
pub uninterp spec fn list_entries(m: serde_json::Map<String, serde_json::Value>) -> Map<Seq<char>, Seq<Seq<char>>>;

/// No text entries.
pub open spec fn no_texts() -> Map<Seq<char>, Seq<char>> {
    Map::empty()
}

/// No list entries.
pub open spec fn no_lists() -> Map<Seq<char>, Seq<Seq<char>>> {
    Map::empty()
}

/// The value under `key` in `m`, if there is one.
pub open spec fn lookup(m: Map<Seq<char>, Seq<char>>, key: Seq<char>) -> Option<Seq<char>> {
    if m.contains_key(key) {
        Some(m[key])
    } else {
        None
    }
}

/// The text that an optional string holds.
pub open spec fn text_view(o: Option<String>) -> Option<Seq<char>> {
    match o {
        Some(s) => Some(s@),
        None => None,
    }
}

/// `serde_json::Map::new`: a map without entries.
#[verifier::external_body]
pub(crate) fn new_fields() -> (fields: serde_json::Map<String, serde_json::Value>)
    ensures
        text_entries(fields) == no_texts(),
        list_entries(fields) == no_lists(),
{
    serde_json::Map::new()
}

/// `serde_json::Map::insert`, with the value written as a JSON string or as
/// a JSON array of strings: afterwards `key` holds that value, whatever it
/// held before, and every other entry is as it was.
#[verifier::external_body]
pub(crate) fn insert_field(
    fields: &mut serde_json::Map<String, serde_json::Value>,
    key: String,
    value: FieldValue<'_>,
)
    ensures
        text_entries(*final(fields)) == (match value {
            FieldValue::Text(text) => text_entries(*old(fields)).insert(key@, text@),
            FieldValue::List(_) => text_entries(*old(fields)).remove(key@),
        }),
        list_entries(*final(fields)) == (match value {
            FieldValue::Text(_) => list_entries(*old(fields)).remove(key@),
            FieldValue::List(list) => list_entries(*old(fields)).insert(key@, texts(list@)),
        }),
{
    let value = match value {
        FieldValue::Text(text) => serde_json::Value::String(text),
        FieldValue::List(list) => serde_json::Value::Array(
            list.iter().map(|item| serde_json::Value::String(item.clone())).collect(),
        ),
    };
    fields.insert(key, value);
}

/// `serde_json::Map::get`: the value under `key`, handed out as a string
/// where it is a JSON string; `None` where there is no such key or the
/// value is of another kind.
#[verifier::external_body]
pub(crate) fn get_text(fields: &serde_json::Map<String, serde_json::Value>, key: &str) -> (value:
    Option<String>)
    ensures
        text_view(value) == lookup(text_entries(*fields), key@),
{
    match fields.get(key) {
        Some(serde_json::Value::String(s)) => Some(s.clone()),
        _ => None,
    }
}

} // verus!
