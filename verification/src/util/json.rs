//! JSON documents as plain values: `package.json` and the listing of
//! `npm list --json` are read through this type.
use vstd::prelude::*;

use crate::error::CapsuleError;
use crate::util::text::str_eq;

verus! {

/// A JSON value. Numbers keep their text; an object keeps its members in
/// order, each name once.
pub enum JsonValue {
    Null,
    Bool(bool),
    Number(String),
    Str(String),
    Array(Vec<JsonValue>),
    Object(Vec<(String, JsonValue)>),
}

/// The value of the first member named `key`.
pub open spec fn find_member(members: Seq<(String, JsonValue)>, key: Seq<char>) -> Option<JsonValue>
    decreases members.len(),
{
    if members.len() == 0 {
        None
    } else if members[0].0@ == key {
        Some(members[0].1)
    } else {
        find_member(members.drop_first(), key)
    }
}

/// The member `key` of an object (`Value::get` with a name).
pub open spec fn member(v: JsonValue, key: Seq<char>) -> Option<JsonValue> {
    match v {
        JsonValue::Object(members) => find_member(members@, key),
        _ => None,
    }
}

/// The text of a string value (`Value::as_str`).
pub open spec fn string_value(v: JsonValue) -> Option<Seq<char>> {
    match v {
        JsonValue::Str(s) => Some(s@),
        _ => None,
    }
}

/// The member `key` of `v`, when `v` is an object that has one.
pub fn get<'a>(v: &'a JsonValue, key: &str) -> (r: Option<&'a JsonValue>)
    ensures
        match r {
            Some(x) => member(*v, key@) == Some(*x),
            None => member(*v, key@) is None,
        },
{
    match v {
        JsonValue::Object(members) => {
            assert(member(*v, key@) == find_member(members@, key@));
            let mut i: usize = 0;
            assert(members@.skip(0) =~= members@);
            while i < members.len()
                invariant
                    i <= members@.len(),
                    member(*v, key@) == find_member(members@, key@),
                    find_member(members@, key@) == find_member(members@.skip(i as int), key@),
                decreases members@.len() - i,
            {
                assert(members@.skip(i as int)[0] == members@[i as int]);
                if str_eq(members[i].0.as_str(), key) {
                    assert(find_member(members@.skip(i as int), key@) == Some(members@[i as int].1));
                    return Some(&members[i].1);
                }
                assert(members@.skip(i as int).drop_first() =~= members@.skip(i + 1));
                i = i + 1;
            }
            None
        },
        _ => None,
    }
}

/// The text of `v`, when it is a string.
pub fn as_str(v: &JsonValue) -> (r: Option<&String>)
    ensures
        match r {
            Some(s) => string_value(*v) == Some(s@),
            None => string_value(*v) is None,
        },
{
    match v {
        JsonValue::Str(s) => Some(s),
        _ => None,
    }
}

/// The value that `serde_json` parses from `bytes` into a
/// `serde_json::Value`, converted variant for variant; `None` when the bytes
/// are not one JSON document.
pub uninterp spec fn parsed_json(bytes: Seq<u8>) -> Option<JsonValue>;

/// `serde_json::Value`, carried through the conversion below.
#[verifier::external_type_specification]
#[verifier::external_body]
pub struct ExSerdeJsonValue(serde_json::Value);

/// A `serde_json::Value` as a `JsonValue`, variant for variant: numbers by
/// their text, object members in the order the value holds them.
#[verifier::external_body]
fn json_of(v: &serde_json::Value) -> JsonValue {
    match v {
        serde_json::Value::Null => JsonValue::Null,
        serde_json::Value::Bool(b) => JsonValue::Bool(*b),
        serde_json::Value::Number(n) => JsonValue::Number(n.to_string()),
        serde_json::Value::String(t) => JsonValue::Str(t.clone()),
        serde_json::Value::Array(a) => JsonValue::Array(a.iter().map(json_of).collect()),
        serde_json::Value::Object(m) => JsonValue::Object(
            m.iter().map(|(k, x)| (k.clone(), json_of(x))).collect(),
        ),
    }
}

/// Parses JSON text with `serde_json::from_slice` into a
/// `serde_json::Value`. The contract claims only that the result is the one
/// `parsed_json` names for these bytes: the same bytes give the same value,
/// and a parse error gives `None`.
#[verifier::external_body]
pub(crate) fn parse_json(bytes: &[u8]) -> (r: Option<JsonValue>)
    ensures
        r == parsed_json(bytes@),
{
    serde_json::from_slice::<serde_json::Value>(bytes).ok().map(|v| json_of(&v))
}

/// `package.json` as a JSON value; text that is not JSON is refused.
pub fn parse_manifest(bytes: &[u8]) -> (r: Result<JsonValue, CapsuleError>)
    ensures
        match parsed_json(bytes@) {
            Some(v) => r == Ok::<JsonValue, CapsuleError>(v),
            None => r == Err::<JsonValue, CapsuleError>(CapsuleError::InvalidPackageJson),
        },
{
    match parse_json(bytes) {
        Some(v) => Ok(v),
        None => Err(CapsuleError::InvalidPackageJson),
    }
}

/// Whether `v` is an object.
pub fn is_object(v: &JsonValue) -> (b: bool)
    ensures
        b == (*v is Object),
{
    match v {
        JsonValue::Object(_) => true,
        _ => false,
    }
}

} // verus!
