//! A JSON document modeled with plain values, and the trusted boundary to
//! `serde_json` that produces one from text. The decoding rules of the
//! metadata model read this tree and are verified against it.

use vstd::prelude::*;
use crate::strutil::{str_chars, chars_eq};

verus! {

/// A JSON value over plain data. A number representable as `u64` keeps its
/// value; any other number (negative, fractional, or too large) is
/// `NumOther`, mirroring the distinction `serde_json::Value::as_u64` makes.
/// An object's keys are unique after parsing, and the decoder reads them
/// only by key, so their order carries no meaning.
#[derive(Debug)]
pub enum JsonValue {
    Null,
    Bool(bool),
    UInt(u64),
    NumOther,
    Str(String),
    Array(Vec<JsonValue>),
    Object(Vec<(String, JsonValue)>),
}

#[verifier::external_type_specification]
#[verifier::external_body]
pub struct ExSerdeValue(serde_json::Value);

/// What parsing the characters `s` as JSON yields: `None` when `s` is not a
/// well-formed JSON document, otherwise the document as a [`JsonValue`].
pub uninterp spec fn json_of(s: Seq<char>) -> Option<JsonValue>;

/// Relies on `serde_json::Value`'s accessors to rebuild the document as
/// plain values: `as_u64` tells which numbers are unsigned integers; an
/// object hands its bindings out with unique keys.
#[verifier::external_body]
fn value_to_json(v: &serde_json::Value) -> JsonValue {
    match v {
        serde_json::Value::Null => JsonValue::Null,
        serde_json::Value::Bool(b) => JsonValue::Bool(*b),
        serde_json::Value::Number(n) => match n.as_u64() {
            Some(u) => JsonValue::UInt(u),
            None => JsonValue::NumOther,
        },
        serde_json::Value::String(s) => JsonValue::Str(s.clone()),
        serde_json::Value::Array(a) => JsonValue::Array(a.iter().map(value_to_json).collect()),
        serde_json::Value::Object(o) => JsonValue::Object(
            o.iter().map(|(k, x)| (k.clone(), value_to_json(x))).collect(),
        ),
    }
}

/// Relies on `serde_json::from_str::<serde_json::Value>`: parses a JSON
/// document, `Err` exactly on malformed input; the parse depends on the
/// input characters alone, which is what lets its result carry a name.
#[verifier::external_body]
pub(crate) fn parse_json(s: &str) -> (r: Option<JsonValue>)
    ensures
        r == json_of(s@),
{
    let v: serde_json::Value = match serde_json::from_str(s) {
        Ok(v) => v,
        Err(_) => {
            return None;
        },
    };
    Some(value_to_json(&v))
}

/// The value under `key` in an object's fields: the first binding whose key
/// matches, `None` when no binding does.
pub open spec fn spec_obj_get(fields: Seq<(String, JsonValue)>, key: Seq<char>) -> Option<
    JsonValue,
>
    decreases fields.len(),
{
    if fields.len() == 0 {
        None
    } else if fields[0].0@ == key {
        Some(fields[0].1)
    } else {
        spec_obj_get(fields.drop_first(), key)
    }
}

proof fn lemma_obj_get_skip(fields: Seq<(String, JsonValue)>, key: Seq<char>, i: int)
    requires
        0 <= i <= fields.len(),
        forall|j: int| 0 <= j < i ==> (#[trigger] fields[j]).0@ != key,
    ensures
        spec_obj_get(fields, key) == spec_obj_get(fields.skip(i), key),
    decreases i,
{
    if i > 0 {
        assert(fields[0].0@ != key);
        lemma_obj_get_skip(fields.drop_first(), key, i - 1);
        assert(fields.drop_first().skip(i - 1) =~= fields.skip(i));
    } else {
        assert(fields.skip(0) =~= fields);
    }
}

/// Looks `key` up among an object's fields, first matching binding.
pub fn json_get<'a>(fields: &'a Vec<(String, JsonValue)>, key: &str) -> (r: Option<
    &'a JsonValue,
>)
    ensures
        match r {
            Some(v) => spec_obj_get(fields@, key@) == Some(*v),
            None => spec_obj_get(fields@, key@) is None,
        },
{
    let kv = str_chars(key);
    let mut i: usize = 0;
    while i < fields.len()
        invariant
            i <= fields@.len(),
            kv@ == key@,
            forall|j: int| 0 <= j < i ==> (#[trigger] fields@[j]).0@ != key@,
        decreases fields@.len() - i,
    {
        let fv = str_chars(fields[i].0.as_str());
        if chars_eq(&fv, &kv) {
            proof {
                lemma_obj_get_skip(fields@, key@, i as int);
                assert(fields@.skip(i as int)[0] == fields@[i as int]);
            }
            return Some(&fields[i].1);
        }
        i = i + 1;
    }
    proof {
        lemma_obj_get_skip(fields@, key@, i as int);
    }
    None
}

} // verus!
