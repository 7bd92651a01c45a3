//! JSON documents, read and changed through `serde_json`. A document is
//! opaque here; the names below say what it holds, and each function states
//! over them what `serde_json` documents of the call it makes.

use vstd::prelude::*;
use crate::decimal::digit_value;
use crate::text::string_views;

verus! {

/// `serde_json::Value`, a JSON document or a part of one, taken as opaque.
#[verifier::external_type_specification]
#[verifier::external_body]
pub struct ExJsonValue(serde_json::Value);

/// `serde_json::Error`, taken as opaque.
#[verifier::external_type_specification]
#[verifier::external_body]
pub struct ExJsonError(serde_json::Error);

/// The document that a text denotes; `None` if the text is not JSON.
pub uninterp spec fn json_document(text: Seq<char>) -> Option<serde_json::Value>;

/// The members of an object by their keys; `None` if the value is no object.
pub uninterp spec fn json_members(value: serde_json::Value) -> Option<
    Map<Seq<char>, serde_json::Value>,
>;

/// The elements of an array; `None` if the value is no array.
pub uninterp spec fn json_items(value: serde_json::Value) -> Option<Seq<serde_json::Value>>;

/// The text of a string; `None` if the value is no string.
pub uninterp spec fn json_text(value: serde_json::Value) -> Option<Seq<char>>;

/// The truth value of a boolean; `None` if the value is no boolean.
pub uninterp spec fn json_flag(value: serde_json::Value) -> Option<bool>;

/// The value that a JSON pointer leads to within a document, if any.
pub uninterp spec fn json_at(value: serde_json::Value, pointer: Seq<char>) -> Option<
    serde_json::Value,
>;

/// The document written out with indentation; `None` if the serializer
/// refuses it.
pub uninterp spec fn json_written(value: serde_json::Value) -> Option<Seq<char>>;

/// The object `value` with the member under `key` set to the string `text`.
pub uninterp spec fn json_with_text(value: serde_json::Value, key: Seq<char>, text: Seq<char>)
    -> serde_json::Value;

/// The member of `value` under `key`: `None` if `value` is no object or has
/// no such member.
pub open spec fn json_member(value: serde_json::Value, key: Seq<char>) -> Option<serde_json::Value> {
    match json_members(value) {
        Some(members) => if members.contains_key(key) {
            Some(members[key])
        } else {
            None
        },
        None => None,
    }
}

/// The text of the member of `value` under `key`, if that member is a string.
pub open spec fn json_member_text(value: serde_json::Value, key: Seq<char>) -> Option<Seq<char>> {
    match json_member(value, key) {
        Some(member) => json_text(member),
        None => None,
    }
}

/// The member under `second` of the member under `first`.
pub open spec fn json_member2(value: serde_json::Value, first: Seq<char>, second: Seq<char>)
    -> Option<serde_json::Value> {
    match json_member(value, first) {
        Some(inner) => json_member(inner, second),
        None => None,
    }
}

/// Whether a key stands for itself in a JSON pointer: it holds neither `/`
/// nor `~`, so that nothing in it is an escape, and does not start with a
/// digit, so that it is no index into an array.
pub open spec fn plain_key(key: Seq<char>) -> bool {
    &&& !key.contains('/')
    &&& !key.contains('~')
    &&& key.len() > 0 ==> digit_value(key[0]) is None
}

/// The JSON pointer that names the member under `second` of the member under
/// `first`.
pub open spec fn pointer_of(first: Seq<char>, second: Seq<char>) -> Seq<char> {
    seq!['/'] + first + seq!['/'] + second
}

/// Whether `found` is what a pointer of two plain keys leads to: the member
/// under the second key of the member under the first. Of other pointers
/// this says nothing.
pub open spec fn two_steps(
    value: serde_json::Value,
    pointer: Seq<char>,
    found: Option<serde_json::Value>,
) -> bool {
    forall|first: Seq<char>, second: Seq<char>|
        plain_key(first) && plain_key(second) && pointer == #[trigger] pointer_of(first, second)
            ==> found == json_member2(value, first, second)
}

/// Whether `keys` lists the keys of `members`, each once.
pub open spec fn lists_keys(keys: Seq<Seq<char>>, members: Map<Seq<char>, serde_json::Value>) -> bool {
    &&& forall|k: Seq<char>| #[trigger] members.contains_key(k) <==> keys.contains(k)
    &&& keys.no_duplicates()
}

/// Whether `after` is the object `before` with the member under `key` set to
/// the string `text`, and every other member as it was.
pub open spec fn member_set(
    before: serde_json::Value,
    after: serde_json::Value,
    key: Seq<char>,
    text: Seq<char>,
) -> bool {
    &&& json_members(before) is Some
    &&& json_members(after) is Some
    &&& json_members(after)->0.dom() == json_members(before)->0.dom().insert(key)
    &&& json_text(json_members(after)->0[key]) == Some(text)
    &&& forall|k: Seq<char>|
        k != key && #[trigger] json_members(before)->0.contains_key(k) ==> json_members(after)->0[k]
            == json_members(before)->0[k]
}

/// Parses a text with `serde_json::from_str`, as a `serde_json::Value`.
///
/// Not proved: that the outcome depends on the text alone, which is what
/// gives `json_document` its meaning.
#[verifier::external_body]
pub(crate) fn parse_json(text: &str) -> (r: Result<serde_json::Value, serde_json::Error>)
    ensures
        match r {
            Ok(value) => json_document(text@) == Some(value),
            Err(_) => json_document(text@) is None,
        },
{
    serde_json::from_str::<serde_json::Value>(text)
}

/// The member under a key, by `serde_json::Value::get` with a string index.
///
/// Not proved: that it is the object's member under that key, and `None` for
/// a value that is no object or lacks the key, as `get` documents.
#[verifier::external_body]
pub(crate) fn member<'a>(value: &'a serde_json::Value, key: &str) -> (r: Option<
    &'a serde_json::Value,
>)
    ensures
        match r {
            Some(m) => json_member(*value, key@) == Some(*m),
            None => json_member(*value, key@) is None,
        },
{
    value.get(key)
}

/// The value at a JSON pointer, by `serde_json::Value::pointer`.
///
/// Not proved: that the outcome depends on the document and the pointer
/// alone, and that a pointer of two plain keys leads to the member under the
/// second key of the member under the first, as `pointer` walks objects.
#[verifier::external_body]
pub(crate) fn at_pointer<'a>(value: &'a serde_json::Value, pointer: &str) -> (r: Option<
    &'a serde_json::Value,
>)
    ensures
        match r {
            Some(m) => json_at(*value, pointer@) == Some(*m),
            None => json_at(*value, pointer@) is None,
        },
        two_steps(
            *value,
            pointer@,
            match r {
                Some(m) => Some(*m),
                None => None,
            },
        ),
{
    value.pointer(pointer)
}

/// `serde_json::Value::as_str` gives the text of a string and `None` for any
/// other value.
pub assume_specification<'a>[ serde_json::Value::as_str ](value: &'a serde_json::Value) -> (r:
    Option<&'a str>)
    ensures
        match r {
            Some(s) => json_text(*value) == Some(s@),
            None => json_text(*value) is None,
        },
;

/// `serde_json::Value::as_bool` gives the truth value of a boolean and `None`
/// for any other value.
pub assume_specification[ serde_json::Value::as_bool ](value: &serde_json::Value) -> (r: Option<
    bool,
>)
    ensures
        r == json_flag(*value),
;

/// `serde_json::Value::as_array` gives the elements of an array and `None` for
/// any other value.
pub assume_specification<'a>[ serde_json::Value::as_array ](value: &'a serde_json::Value) -> (r:
    Option<&'a Vec<serde_json::Value>>)
    ensures
        match r {
            Some(items) => json_items(*value) == Some(items@),
            None => json_items(*value) is None,
        },
;

/// `serde_json::Value::is_object` tells whether the value is an object.
pub assume_specification[ serde_json::Value::is_object ](value: &serde_json::Value) -> (r: bool)
    ensures
        r == json_members(*value) is Some,
;

/// The keys of an object, by `serde_json::Value::as_object` and
/// `serde_json::Map::keys`.
///
/// Not proved: that these are the keys of the object's members, each once,
/// and `None` for a value that is no object. Nothing is claimed of their order.
#[verifier::external_body]
pub(crate) fn object_keys(value: &serde_json::Value) -> (r: Option<Vec<String>>)
    ensures
        match r {
            Some(keys) => json_members(*value) matches Some(members) && lists_keys(
                string_views(keys@),
                members,
            ),
            None => json_members(*value) is None,
        },
{
    value.as_object().map(|object| object.keys().cloned().collect())
}

/// Sets the member under `key` to a string, by `serde_json::Map::insert` on
/// the object that `serde_json::Value::as_object_mut` gives.
///
/// Not proved: that the outcome depends on the object, the key and the text
/// alone, and that afterwards the object has that member with that text and
/// its other members as before, as `insert` documents.
#[verifier::external_body]
pub(crate) fn set_member_text(value: &mut serde_json::Value, key: &str, text: &str)
    requires
        json_members(*old(value)) is Some,
    ensures
        *final(value) == json_with_text(*old(value), key@, text@),
        member_set(*old(value), *final(value), key@, text@),
{
    value.as_object_mut().unwrap().insert(
        key.to_string(),
        serde_json::Value::String(text.to_string()),
    );
}

/// Writes a document out with indentation, by `serde_json::to_string_pretty`.
///
/// Not proved: that the outcome, the text or the refusal, depends on the
/// document alone, which is what gives `json_written` its meaning.
#[verifier::external_body]
pub(crate) fn write_pretty(value: &serde_json::Value) -> (r: Result<String, serde_json::Error>)
    ensures
        match r {
            Ok(text) => json_written(*value) == Some(text@),
            Err(_) => json_written(*value) is None,
        },
{
    serde_json::to_string_pretty(value)
}

/// A copy of a document, by `Clone`.
///
/// Not proved: that the copy is the same document.
#[verifier::external_body]
pub(crate) fn copy_json(value: &serde_json::Value) -> (r: serde_json::Value)
    ensures
        r == *value,
{
    value.clone()
}

/// The text of the member under `key`, if `value` is an object that has such
/// a member and that member is a string.
pub fn member_text(value: &serde_json::Value, key: &str) -> (r: Option<String>)
    ensures
        match r {
            Some(s) => json_member_text(*value, key@) == Some(s@),
            None => json_member_text(*value, key@) is None,
        },
{
    match member(value, key) {
        Some(m) => match m.as_str() {
            Some(s) => Some(s.to_owned()),
            None => None,
        },
        None => None,
    }
}

} // verus!
