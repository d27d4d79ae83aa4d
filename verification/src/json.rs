//! JSON documents, read with `serde_json`. A document is held as a
//! `serde_json::Value`; what it holds is spoken of as a [`JsonTree`]. The
//! functions here are the only ones that look into a `Value`, and their
//! contracts are taken on trust from the source of `serde_json`.

use vstd::prelude::*;

verus! {

/// `serde_json::Value`, taken as it is: nothing of its inside is seen here.
#[verifier::external_type_specification]
#[verifier::external_body]
pub struct ExValue(serde_json::Value);

/// `serde_json::Error`, taken as it is.
#[verifier::external_type_specification]
#[verifier::external_body]
pub struct ExJsonError(serde_json::Error);

/// What a JSON value holds. Of a number only that it is one.
pub enum JsonTree {
    Null,
    Bool(bool),
    Number,
    Text(Seq<char>),
    Array(Seq<JsonTree>),
    Object(Map<Seq<char>, JsonTree>),
}

/// What a `serde_json::Value` holds.
pub uninterp spec fn json_tree(v: serde_json::Value) -> JsonTree;

/// What `serde_json::from_slice` reads from these bytes as a
/// `serde_json::Value`: the document, or nothing where the bytes are not
/// one JSON document.
pub uninterp spec fn json_document(bytes: Seq<u8>) -> Option<JsonTree>;

/// What each of a sequence of values holds.
pub open spec fn json_trees(values: Seq<serde_json::Value>) -> Seq<JsonTree> {
    values.map_values(|x: serde_json::Value| json_tree(x))
}

impl JsonTree {
    /// The member `key` of an object; nothing for what is no object or has
    /// no such member.
    pub open spec fn member(self, key: Seq<char>) -> Option<JsonTree> {
        match self {
            JsonTree::Object(members) => if members.contains_key(key) {
                Some(members[key])
            } else {
                None
            },
            _ => None,
        }
    }

    /// The items of an array; nothing for what is no array.
    pub open spec fn items(self) -> Option<Seq<JsonTree>> {
        match self {
            JsonTree::Array(items) => Some(items),
            _ => None,
        }
    }

    /// The characters of a string; nothing for what is no string.
    pub open spec fn text(self) -> Option<Seq<char>> {
        match self {
            JsonTree::Text(s) => Some(s),
            _ => None,
        }
    }
}

/// `serde_json::from_slice::<Value>`: reads the bytes as one JSON document.
/// The outcome depends on the bytes alone.
#[verifier::external_body]
pub(crate) fn read_document(bytes: &[u8]) -> (r: Result<serde_json::Value, serde_json::Error>)
    ensures
        match r {
            Ok(v) => json_document(bytes@) == Some(json_tree(v)),
            Err(_) => json_document(bytes@) is None,
        },
{
    serde_json::from_slice(bytes)
}

/// `Value::get` with a string: the member of that name where the value is
/// an object that has one, else nothing.
#[verifier::external_body]
pub(crate) fn member_of<'a>(v: &'a serde_json::Value, key: &str) -> (r: Option<
    &'a serde_json::Value,
>)
    ensures
        match r {
            Some(x) => json_tree(*v).member(key@) == Some(json_tree(*x)),
            None => json_tree(*v).member(key@) is None,
        },
{
    v.get(key)
}

/// `Value::as_array`: the items where the value is an array, else nothing.
#[verifier::external_body]
pub(crate) fn items_of<'a>(v: &'a serde_json::Value) -> (r: Option<&'a Vec<serde_json::Value>>)
    ensures
        match r {
            Some(items) => json_tree(*v).items() == Some(json_trees(items@)),
            None => json_tree(*v).items() is None,
        },
{
    v.as_array()
}

/// `Value::as_str`: the text where the value is a string, else nothing.
#[verifier::external_body]
pub(crate) fn text_of<'a>(v: &'a serde_json::Value) -> (r: Option<&'a str>)
    ensures
        match r {
            Some(s) => json_tree(*v).text() == Some(s@),
            None => json_tree(*v).text() is None,
        },
{
    v.as_str()
}

/// `Value::is_boolean`: whether the value is `true` or `false`.
#[verifier::external_body]
pub(crate) fn is_boolean(v: &serde_json::Value) -> (r: bool)
    ensures
        r == (json_tree(*v) is Bool),
{
    v.is_boolean()
}

} // verus!
