//! A JSON document as the library reads it, and the lookups that npm
//! lockfile scanning makes in one.
use vstd::prelude::*;

use crate::text::{chars_of, eq_string};

verus! {

/// A JSON value. Object members keep the order in which `serde_json`
/// hands them over.
#[derive(Debug)]
pub enum JsonValue {
    Null,
    Bool(bool),
    /// A number; its value is never read.
    Number,
    String(String),
    Array(Vec<JsonValue>),
    Object(Vec<(String, JsonValue)>),
}

#[verifier::external_type_specification]
#[verifier::external_body]
pub struct ExSerdeJsonValue(serde_json::Value);

/// The JSON document that `serde_json` reads from `text`, when `text` is
/// one.
pub uninterp spec fn json_document(text: Seq<char>) -> Option<JsonValue>;

/// The message of the error that `serde_json` gives for a text that is no
/// JSON document.
pub uninterp spec fn json_error_text(text: Seq<char>) -> Seq<char>;

/// `serde_json::from_str::<serde_json::Value>`: the document read from
/// `text` is the one `json_document` names, and a text that is no JSON
/// document is refused, with the message of `serde_json`'s error, which
/// `json_error_text` names; what that message says is not stated.
#[verifier::external_body]
pub fn parse_json(text: &str) -> (res: Result<JsonValue, String>)
    ensures
        res is Ok <==> json_document(text@) is Some,
        res matches Ok(v) ==> json_document(text@) == Some(v),
        res matches Err(message) ==> message@ == json_error_text(text@),
{
    match serde_json::from_str::<serde_json::Value>(text) {
        Ok(v) => Ok(json_value_from(v)),
        Err(e) => Err(e.to_string()),
    }
}

/// Carries a `serde_json::Value` over into a `JsonValue`, variant by
/// variant; the part of `parse_json` that recurses into arrays and objects.
#[verifier::external_body]
fn json_value_from(v: serde_json::Value) -> JsonValue {
    match v {
        serde_json::Value::Null => JsonValue::Null,
        serde_json::Value::Bool(b) => JsonValue::Bool(b),
        serde_json::Value::Number(_) => JsonValue::Number,
        serde_json::Value::String(s) => JsonValue::String(s),
        serde_json::Value::Array(a) => JsonValue::Array(a.into_iter().map(json_value_from).collect()),
        serde_json::Value::Object(m) => JsonValue::Object(
            m.into_iter().map(|(k, v)| (k, json_value_from(v))).collect(),
        ),
    }
}

/// The value of the first member named `key` (`serde_json::Map::get`,
/// whose keys are distinct).
pub open spec fn member(members: Seq<(String, JsonValue)>, key: Seq<char>) -> Option<JsonValue>
    decreases members.len(),
{
    if members.len() == 0 {
        None
    } else if members[0].0@ == key {
        Some(members[0].1)
    } else {
        member(members.drop_first(), key)
    }
}

/// `value.get(key)`: a member of an object; nothing for other values.
pub open spec fn field(value: JsonValue, key: Seq<char>) -> Option<JsonValue> {
    match value {
        JsonValue::Object(members) => member(members@, key),
        _ => None,
    }
}

/// `value.get(key).and_then(|v| v.as_str())`.
pub open spec fn field_str(value: JsonValue, key: Seq<char>) -> Option<Seq<char>> {
    match field(value, key) {
        Some(JsonValue::String(s)) => Some(s@),
        _ => None,
    }
}

/// `value.get(key).and_then(|v| v.as_object())`.
pub open spec fn field_object(value: JsonValue, key: Seq<char>) -> Option<
    Seq<(String, JsonValue)>,
> {
    match field(value, key) {
        Some(JsonValue::Object(members)) => Some(members@),
        _ => None,
    }
}

/// A member found by `member` is one of the members.
pub proof fn lemma_member_is_member(members: Seq<(String, JsonValue)>, key: Seq<char>)
    ensures
        member(members, key) matches Some(v) ==> exists|k: int|
            0 <= k < members.len() && #[trigger] members[k].1 == v,
    decreases members.len(),
{
    if members.len() > 0 && members[0].0@ != key {
        lemma_member_is_member(members.drop_first(), key);
        if let Some(v) = member(members, key) {
            let k: int = choose|k: int|
                0 <= k < members.drop_first().len() && #[trigger] members.drop_first()[k].1 == v;
            assert(members[k + 1].1 == v);
        }
    }
}

/// `value.get(key)`.
pub fn get_field<'a>(value: &'a JsonValue, key: &str) -> (res: Option<&'a JsonValue>)
    ensures
        match res {
            Some(v) => field(*value, key@) == Some(*v),
            None => field(*value, key@) is None,
        },
{
    match value {
        JsonValue::Object(members) => {
            let wanted = chars_of(key);
            let mut i: usize = 0;
            assert(members@.skip(0) == members@);
            while i < members.len()
                invariant
                    wanted@ == key@,
                    field(*value, key@) == member(members@, key@),
                    i <= members@.len(),
                    member(members@, key@) == member(members@.skip(i as int), key@),
                decreases members@.len() - i,
            {
                assert(members@.skip(i as int).drop_first() == members@.skip(i + 1));
                if eq_string(&wanted, &members[i].0) {
                    assert(members@.skip(i as int)[0] == members@[i as int]);
                    return Some(&members[i].1);
                }
                i = i + 1;
            }
            None
        },
        _ => None,
    }
}

} // verus!
