//! JSON text: reading a value from text and writing a value as indented text, both by
//! the `serde_json` crate, with the library's `JsonValue` on either side.

use vstd::prelude::*;

use crate::json::{JsonObject, JsonValue, Jv};
use serde_json::Value;

verus! {

/// `serde_json::Value`, the value tree that `serde_json` reads and writes. Verus sees
/// nothing inside it: the conversions below carry it between the two models.
#[verifier::external_type_specification]
#[verifier::external_body]
pub struct ExSerdeValue(Value);

/// The value that `serde_json::from_str` reads from `raw`, in the library's model, or
/// `None` where `raw` is not JSON text. It depends on `raw` alone.
pub uninterp spec fn parsed_json(raw: Seq<char>) -> Option<Jv>;

/// The text that `serde_json::to_string_pretty` writes for `v`: members in key order,
/// nested values indented by two spaces. It depends on `v` alone.
pub uninterp spec fn pretty_json_text(v: Jv) -> Seq<char>;

/// The map that a list of members denotes, a later member of a key replacing an earlier.
pub open spec fn members_map(s: Seq<(String, JsonValue)>) -> Map<Seq<char>, Jv>
    decreases s.len(),
{
    if s.len() == 0 {
        Map::empty()
    } else {
        members_map(s.drop_last()).insert(s.last().0@, s.last().1@)
    }
}

/// The object whose members are `members` (see `members_map`).
pub fn object_of(members: Vec<(String, JsonValue)>) -> (r: JsonObject)
    ensures
        r@ == members_map(members@),
{
    let ghost all = members@;
    let mut rest = members;
    let mut o = JsonObject::new();
    let ghost mut done: int = 0;
    while rest.len() > 0
        invariant
            0 <= done <= all.len(),
            rest@ == all.skip(done),
            o@ == members_map(all.take(done)),
        decreases rest.len(),
    {
        let (k, v) = rest.remove(0);
        proof {
            assert(all[done] == (k, v));
            assert(all.take(done + 1).drop_last() =~= all.take(done));
        }
        o.insert(k, v);
        proof {
            done = done + 1;
            assert(rest@ =~= all.skip(done));
        }
    }
    assert(all.take(done) =~= all);
    o
}

/// A `serde_json::Value` in the library's model, one variant for one: an integer that
/// fits `u64` is `UInt`, another that fits `i64` is `Int`, any other number keeps its
/// text as `Decimal`. Nothing is stated of the result.
#[verifier::external_body]
fn from_serde(v: &Value) -> JsonValue {
    match v {
        Value::Null => JsonValue::Null,
        Value::Bool(b) => JsonValue::Bool(*b),
        Value::Number(n) => match (n.as_u64(), n.as_i64()) {
            (Some(u), _) => JsonValue::UInt(u),
            (None, Some(i)) => JsonValue::Int(i),
            (None, None) => JsonValue::Decimal(n.to_string()),
        },
        Value::String(s) => JsonValue::Str(s.clone()),
        Value::Array(a) => JsonValue::Array(a.iter().map(from_serde).collect()),
        Value::Object(m) => JsonValue::Object(object_of(m.iter().map(|(k, x)| (k.clone(), from_serde(x))).collect())),
    }
}

/// A library value as a `serde_json::Value`, one variant for one; a `Decimal` is read
/// back from its text. Nothing is stated of the result.
#[verifier::external_body]
fn to_serde(v: &JsonValue) -> Value {
    match v {
        JsonValue::Null => Value::Null,
        JsonValue::Bool(b) => Value::Bool(*b),
        JsonValue::UInt(u) => Value::from(*u),
        JsonValue::Int(i) => Value::from(*i),
        JsonValue::Decimal(s) => s.parse().unwrap_or_default(),
        JsonValue::Str(s) => Value::String(s.clone()),
        JsonValue::Array(a) => Value::Array(a.iter().map(to_serde).collect()),
        JsonValue::Object(o) => Value::Object(o.members().iter().map(|(k, x)| (k.clone(), to_serde(x))).collect()),
    }
}

/// `serde_json::from_str::<serde_json::Value>` of the `serde_json` crate, in the
/// library's model: the value `raw` holds as JSON text (`parsed_json(raw)`), or `None`
/// where the crate refuses `raw`.
#[verifier::external_body]
pub(crate) fn parse_json(raw: &str) -> (r: Option<JsonValue>)
    ensures
        match r {
            Some(v) => parsed_json(raw@) == Some(v@),
            None => parsed_json(raw@) is None,
        },
{
    match serde_json::from_str::<Value>(raw) {
        Ok(v) => Some(from_serde(&v)),
        Err(_) => None,
    }
}

/// `serde_json::to_string_pretty` of the `serde_json` crate, on the value `v` stands for:
/// its indented JSON text, `pretty_json_text(v)`. Writing a value tree whose keys are
/// strings into a `String` cannot fail.
#[verifier::external_body]
pub(crate) fn pretty_json(v: &JsonValue) -> (r: String)
    ensures
        r@ == pretty_json_text(v@),
{
    serde_json::to_string_pretty(&to_serde(v)).unwrap_or_default()
}

/// The indented JSON text of `v`, as the command line prints data and as records are
/// written.
pub fn json_text(v: &JsonValue) -> (r: String)
    ensures
        r@ == pretty_json_text(v@),
{
    pretty_json(v)
}

} // verus!
