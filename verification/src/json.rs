//! JSON values, as far as job metadata needs them: objects with text members.
use vstd::prelude::*;

verus! {

/// `serde_json::Value`, a JSON value. Its inside is not looked into; what
/// is known of a value is what [`json_is_object`], [`json_keys`] and
/// [`json_text_members`] say.
#[verifier::external_type_specification]
#[verifier::external_body]
pub struct ExJsonValue(serde_json::Value);

/// Whether a JSON value is an object.
pub uninterp spec fn json_is_object(v: serde_json::Value) -> bool;

/// The keys of all the members of a JSON object. A value that is no object
/// has none.
pub uninterp spec fn json_keys(v: serde_json::Value) -> Set<Seq<char>>;

/// The members of a JSON object whose values are strings, by key. A value
/// that is no object has none.
pub uninterp spec fn json_text_members(v: serde_json::Value) -> Map<Seq<char>, Seq<char>>;

/// `serde_json::Value::clone`: a copy that equals the value it was made
/// from.
#[verifier::external_body]
pub(crate) fn json_clone(v: &serde_json::Value) -> (r: serde_json::Value)
    ensures
        r == *v,
{
    v.clone()
}

/// `serde_json::Map::new`, as a value: the object without members.
#[verifier::external_body]
pub(crate) fn json_empty_object() -> (v: serde_json::Value)
    ensures
        json_is_object(v),
        json_keys(v) == Set::<Seq<char>>::empty(),
        json_text_members(v).dom() == Set::<Seq<char>>::empty(),
{
    serde_json::Value::Object(serde_json::Map::new())
}

/// `serde_json::Map::insert` with a string value: binds `key` to `text` in
/// the object, replacing what `key` was bound to, and leaves the other
/// members as they were.
#[verifier::external_body]
pub(crate) fn json_set_text(v: &mut serde_json::Value, key: &str, text: &str)
    requires
        json_is_object(*old(v)),
    ensures
        json_is_object(*final(v)),
        json_keys(*final(v)) == json_keys(*old(v)).insert(key@),
        json_text_members(*final(v)) == json_text_members(*old(v)).insert(key@, text@),
{
    if let serde_json::Value::Object(members) = v {
        members.insert(key.to_owned(), serde_json::Value::String(text.to_owned()));
    }
}

/// `serde_json::Value::get` with a string key: the text bound to `key`,
/// where the value is an object that binds `key` to a string.
#[verifier::external_body]
pub(crate) fn json_get_text(v: &serde_json::Value, key: &str) -> (r: Option<String>)
    ensures
        (match r {
            Some(text) => json_text_members(*v).contains_key(key@) && json_text_members(*v)[key@]
                == text@,
            None => !json_text_members(*v).contains_key(key@),
        }),
{
    match v.get(key) {
        Some(serde_json::Value::String(text)) => Some(text.clone()),
        _ => None,
    }
}

} // verus!
