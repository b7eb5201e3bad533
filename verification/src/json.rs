//! JSON documents as plain values, and the reading of drive items and pages
//! of items from them.

use vstd::prelude::*;

verus! {

/// A JSON document. A number keeps its value where it is a whole number
/// from 0 to `u64::MAX`; the members of an object keep their keys.
#[derive(Debug)]
pub enum Json {
    Null,
    Bool(bool),
    Number(Option<u64>),
    Text(String),
    Array(Vec<Json>),
    Object(Vec<(String, Json)>),
}

/// `serde_json::Value`, which is carried from `serde_json::from_str` to
/// `to_json` and looked into nowhere else.
#[verifier::external_type_specification]
#[verifier::external_body]
pub struct ExValue(serde_json::Value);

/// The document that `serde_json` reads from a text, as a `Json`; `None`
/// where it refuses the text.
pub uninterp spec fn json_value(text: Seq<char>) -> Option<Json>;

/// Rebuilds a `serde_json::Value` as a `Json`, variant by variant. A number
/// becomes what `Number::as_u64` gives for it, an object the list of its
/// members as `Map::into_iter` hands them out. Nothing is claimed of the
/// result here: `parse_json` names it.
#[verifier::external_body]
fn to_json(value: serde_json::Value) -> Json {
    match value {
        serde_json::Value::Null => Json::Null,
        serde_json::Value::Bool(b) => Json::Bool(b),
        serde_json::Value::Number(n) => Json::Number(n.as_u64()),
        serde_json::Value::String(s) => Json::Text(s),
        serde_json::Value::Array(a) => Json::Array(a.into_iter().map(to_json).collect()),
        serde_json::Value::Object(m) => Json::Object(
            m.into_iter().map(|(k, v)| (k, to_json(v))).collect(),
        ),
    }
}

/// Calls `serde_json::from_str` for a `serde_json::Value`. The result is a
/// function of the text alone, which `json_value` names; it is `None` where
/// `from_str` returns an error.
#[verifier::external_body]
pub(crate) fn parse_json(text: &str) -> (r: Option<Json>)
    ensures
        r == json_value(text@),
{
    match serde_json::from_str::<serde_json::Value>(text) {
        Ok(value) => Some(to_json(value)),
        Err(_) => None,
    }
}

/// The value of the first of `members` whose key is `key`.
pub open spec fn member(members: Seq<(String, Json)>, key: Seq<char>) -> Option<Json>
    decreases members.len(),
{
    if members.len() == 0 {
        None
    } else if members[0].0@ == key {
        Some(members[0].1)
    } else {
        member(members.drop_first(), key)
    }
}

/// A member that must be there and be a string.
pub open spec fn text_member(members: Seq<(String, Json)>, key: Seq<char>) -> Option<Seq<char>> {
    match member(members, key) {
        Some(Json::Text(s)) => Some(s@),
        _ => None,
    }
}

/// A member that may be missing or `null`, and is a string otherwise. The
/// outer `None` stands for a member of another kind.
pub open spec fn optional_text_member(members: Seq<(String, Json)>, key: Seq<char>) -> Option<
    Option<Seq<char>>,
> {
    match member(members, key) {
        None => Some(None),
        Some(Json::Null) => Some(None),
        Some(Json::Text(s)) => Some(Some(s@)),
        _ => None,
    }
}

/// Looks `key` up among the members of an object.
pub fn lookup<'a>(members: &'a Vec<(String, Json)>, key: &str) -> (r: Option<&'a Json>)
    ensures
        match r {
            Some(found) => member(members@, key@) == Some(*found),
            None => member(members@, key@) is None,
        },
{
    let wanted = String::from_str(key);
    let mut i: usize = 0;
    assert(members@.skip(0) =~= members@);
    while i < members.len()
        invariant
            i <= members.len(),
            wanted@ == key@,
            member(members@, key@) == member(members@.skip(i as int), key@),
        decreases members.len() - i,
    {
        proof {
            assert(members@.skip(i as int)[0] == members@[i as int]);
            assert(members@.skip(i as int).drop_first() =~= members@.skip(i + 1));
        }
        if members[i].0 == wanted {
            return Some(&members[i].1);
        }
        i += 1;
    }
    proof {
        assert(members@.skip(i as int).len() == 0);
    }
    None
}

/// Reads a member that must be there and be a string.
pub fn lookup_text(members: &Vec<(String, Json)>, key: &str) -> (r: Option<String>)
    ensures
        match r {
            Some(s) => text_member(members@, key@) == Some(s@),
            None => text_member(members@, key@) is None,
        },
{
    match lookup(members, key) {
        Some(Json::Text(s)) => Some(s.clone()),
        _ => None,
    }
}

/// Reads a member that may be missing or `null`, and is a string otherwise.
/// The outer `None` reports a member of another kind.
pub fn lookup_optional_text(members: &Vec<(String, Json)>, key: &str) -> (r: Option<
    Option<String>,
>)
    ensures
        match r {
            Some(found) => optional_text_member(members@, key@) == Some(
                crate::item::text_of(found),
            ),
            None => optional_text_member(members@, key@) is None,
        },
{
    match lookup(members, key) {
        None => Some(None),
        Some(Json::Null) => Some(None),
        Some(Json::Text(s)) => Some(Some(s.clone())),
        _ => None,
    }
}

} // verus!
