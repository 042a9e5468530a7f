//! Reading a JSON document of the provider: members of objects, the text of
//! strings, the elements of arrays. The document itself is a
//! `serde_json::Value`; what it holds is stated through three names.

use serde_json::Value;
use vstd::prelude::*;

verus! {

/// `serde_json::Value`, a JSON document. Nothing of its inside is known
/// here but what the three names below say.
#[verifier::external_type_specification]
#[verifier::external_body]
pub struct ExValue(serde_json::Value);

/// The member that `value` holds under `key`: there is one where `value` is
/// an object with that key.
pub uninterp spec fn json_member(value: Value, key: Seq<char>) -> Option<Value>;

/// The text of `value`: there is one where `value` is a string.
pub uninterp spec fn json_text(value: Value) -> Option<Seq<char>>;

/// The elements of `value`, in order: there are some where `value` is an
/// array.
pub uninterp spec fn json_elements(value: Value) -> Option<Seq<Value>>;

/// The value reached from `value` by going to the member under each of the
/// keys in turn.
pub open spec fn json_at(value: Value, keys: Seq<Seq<char>>) -> Option<Value>
    decreases keys.len(),
{
    if keys.len() == 0 {
        Some(value)
    } else {
        match json_member(value, keys[0]) {
            Some(member) => json_at(member, keys.drop_first()),
            None => None,
        }
    }
}

/// The text reached from `value` over the keys: there is one where every
/// key leads to a member and the last member is a string.
pub open spec fn json_text_at(value: Value, keys: Seq<Seq<char>>) -> Option<Seq<char>> {
    match json_at(value, keys) {
        Some(found) => json_text(found),
        None => None,
    }
}

/// The elements reached from `value` over the keys; none where a key leads
/// nowhere or the last member is no array.
pub open spec fn json_elements_at(value: Value, keys: Seq<Seq<char>>) -> Seq<Value> {
    match json_at(value, keys) {
        Some(found) => match json_elements(found) {
            Some(elements) => elements,
            None => Seq::empty(),
        },
        None => Seq::empty(),
    }
}

/// The keys as sequences of characters.
pub open spec fn keys_of(path: Seq<&str>) -> Seq<Seq<char>> {
    Seq::new(path.len(), |i: int| path[i]@)
}

/// `serde_json::Value::get` with a string for the index: the member under
/// `key` where `value` is an object that has the key, nothing for any other
/// value.
#[verifier::external_body]
fn member<'a>(value: &'a Value, key: &str) -> (found: Option<&'a Value>)
    ensures
        found == match json_member(*value, key@) {
            Some(m) => Some(&m),
            None => None,
        },
{
    value.get(key)
}

/// `serde_json::Value::as_str`: the text where `value` is a string, nothing
/// for any other value.
#[verifier::external_body]
fn text<'a>(value: &'a Value) -> (found: Option<&'a str>)
    ensures
        found is Some <==> json_text(*value) is Some,
        found matches Some(s) ==> json_text(*value) == Some(s@),
{
    value.as_str()
}

/// `serde_json::Value::as_array`: the elements where `value` is an array,
/// nothing for any other value.
#[verifier::external_body]
fn elements<'a>(value: &'a Value) -> (found: Option<&'a Vec<Value>>)
    ensures
        found is Some <==> json_elements(*value) is Some,
        found matches Some(v) ==> json_elements(*value) == Some(v@),
{
    value.as_array()
}

/// Goes from `value` to the member under each key of `path` in turn.
pub fn descend<'a>(value: &'a Value, path: &[&str]) -> (found: Option<&'a Value>)
    ensures
        found == match json_at(*value, keys_of(path@)) {
            Some(v) => Some(&v),
            None => None,
        },
{
    let ghost keys = keys_of(path@);
    let mut current: &'a Value = value;
    let mut i: usize = 0;
    assert(keys.skip(0) =~= keys);
    while i < path.len()
        invariant
            i <= path.len(),
            keys == keys_of(path@),
            json_at(*value, keys) == json_at(*current, keys.skip(i as int)),
        decreases path.len() - i,
    {
        assert(keys.skip(i as int)[0] == path@[i as int]@);
        assert(keys.skip(i as int).drop_first() =~= keys.skip(i + 1));
        match member(current, path[i]) {
            Some(m) => {
                current = m;
            },
            None => {
                return None;
            },
        }
        i = i + 1;
    }
    Some(current)
}

/// The text that stands in `value` under the keys of `path`.
pub fn text_at(value: &Value, path: &[&str]) -> (found: Option<String>)
    ensures
        found.deep_view() == json_text_at(*value, keys_of(path@)),
{
    match descend(value, path) {
        Some(v) => match text(v) {
            Some(s) => Some(s.to_owned()),
            None => None,
        },
        None => None,
    }
}

/// The elements of the array that stands in `value` under the keys of
/// `path`; an empty list where none stands there.
pub fn elements_at<'a>(value: &'a Value, path: &[&str]) -> (found: &'a [Value])
    ensures
        found@ == json_elements_at(*value, keys_of(path@)),
{
    match descend(value, path) {
        Some(v) => match elements(v) {
            Some(list) => list.as_slice(),
            None => &[],
        },
        None => &[],
    }
}

} // verus!
