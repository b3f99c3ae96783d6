//! JSON values as plain data, read from text by `serde_json`.
use crate::text::str_eq;
use vstd::prelude::*;

verus! {

/// A JSON value: numbers keep the text `serde_json` prints for them, and an
/// object keeps its members in the order `serde_json` hands them out.
#[derive(Debug)]
pub enum Json {
    Null,
    Bool(bool),
    Num(String),
    Str(String),
    Arr(Vec<Json>),
    Obj(Vec<(String, Json)>),
}

/// The mathematical JSON value.
pub enum JsonV {
    Null,
    Bool(bool),
    Num(Seq<char>),
    Str(Seq<char>),
    Arr(Seq<JsonV>),
    Obj(Seq<(Seq<char>, JsonV)>),
}

impl Json {
    pub open spec fn view(&self) -> JsonV
        decreases self,
    {
        match self {
            Json::Null => JsonV::Null,
            Json::Bool(b) => JsonV::Bool(*b),
            Json::Num(t) => JsonV::Num(t@),
            Json::Str(t) => JsonV::Str(t@),
            Json::Arr(items) => JsonV::Arr(
                Seq::new(items@.len(), |i: int| if 0 <= i < items@.len() { items@[i].view() } else { JsonV::Null }),
            ),
            Json::Obj(members) => JsonV::Obj(
                Seq::new(
                    members@.len(),
                    |i: int|
                        if 0 <= i < members@.len() {
                            (members@[i].0@, members@[i].1.view())
                        } else {
                            (Seq::empty(), JsonV::Null)
                        },
                ),
            ),
        }
    }
}

/// The members of an object have distinct keys.
pub open spec fn keys_distinct(members: Seq<(Seq<char>, JsonV)>) -> bool {
    forall|i: int, j: int| 0 <= i < j < members.len() ==> members[i].0 != members[j].0
}

/// An object's members have distinct keys (any other value qualifies).
pub open spec fn top_keys_distinct(j: JsonV) -> bool {
    match j {
        JsonV::Obj(members) => keys_distinct(members),
        _ => true,
    }
}

/// The value `serde_json::from_str::<serde_json::Value>` reads from a text,
/// or the text of its error.
pub uninterp spec fn json_of(s: Seq<char>) -> Result<JsonV, Seq<char>>;

/// The text `serde_json` prints for a value (`Display` of `serde_json::Value`).
pub uninterp spec fn json_text(j: JsonV) -> Seq<char>;

#[verifier::external_type_specification]
#[verifier::external_body]
pub struct ExJsonValue(serde_json::Value);

/// `serde_json::Value` to `Json`, one variant for one variant; a number keeps
/// the text `serde_json::Number` prints, an object its members in map order.
#[verifier::external_body]
fn json_from_value(v: serde_json::Value) -> Json {
    match v {
        serde_json::Value::Null => Json::Null,
        serde_json::Value::Bool(b) => Json::Bool(b),
        serde_json::Value::Number(n) => Json::Num(n.to_string()),
        serde_json::Value::String(t) => Json::Str(t),
        serde_json::Value::Array(a) => Json::Arr(a.into_iter().map(json_from_value).collect()),
        serde_json::Value::Object(m) => Json::Obj(m.into_iter().map(|(k, x)| (k, json_from_value(x))).collect()),
    }
}

/// `Json` back to `serde_json::Value`; a number's text is read back as a
/// `serde_json::Number` (a text that is none reads as null).
#[verifier::external_body]
fn json_to_value(j: &Json) -> serde_json::Value {
    match j {
        Json::Null => serde_json::Value::Null,
        Json::Bool(b) => serde_json::Value::Bool(*b),
        Json::Num(t) => serde_json::from_str(t).unwrap_or(serde_json::Value::Null),
        Json::Str(t) => serde_json::Value::String(t.clone()),
        Json::Arr(a) => serde_json::Value::Array(a.iter().map(json_to_value).collect()),
        Json::Obj(m) => serde_json::Value::Object(m.iter().map(|(k, x)| (k.clone(), json_to_value(x))).collect()),
    }
}

/// `serde_json::from_str::<serde_json::Value>`: the value a text holds, or
/// the parser's error message. The members of a parsed object come from a
/// `serde_json::Map`, so their keys are distinct.
#[verifier::external_body]
pub(crate) fn parse_json(s: &str) -> (r: Result<Json, String>)
    ensures
        match r {
            Ok(j) => json_of(s@) == Ok::<JsonV, Seq<char>>(j@) && top_keys_distinct(j@),
            Err(m) => json_of(s@) == Err::<JsonV, Seq<char>>(m@),
        },
{
    match serde_json::from_str::<serde_json::Value>(s) {
        Ok(v) => Ok(json_from_value(v)),
        Err(e) => Err(e.to_string()),
    }
}

/// `Display` of `serde_json::Value`: the compact JSON text of a value.
#[verifier::external_body]
pub(crate) fn json_to_text(j: &Json) -> (r: String)
    ensures
        r@ == json_text(j@),
{
    json_to_value(j).to_string()
}

/// The member of an object under `key` (the first, should keys repeat).
pub open spec fn member(members: Seq<(Seq<char>, JsonV)>, key: Seq<char>) -> Option<JsonV>
    decreases members.len(),
{
    if members.len() == 0 {
        None
    } else if members[0].0 == key {
        Some(members[0].1)
    } else {
        member(members.drop_first(), key)
    }
}

/// `value.get(key)`: the member under `key` of an object, nothing for any other value.
pub open spec fn spec_get(j: JsonV, key: Seq<char>) -> Option<JsonV> {
    match j {
        JsonV::Obj(members) => member(members, key),
        _ => None,
    }
}

/// The member under `key` of an object, if the value is one and has it.
pub fn get<'a>(j: &'a Json, key: &str) -> (r: Option<&'a Json>)
    ensures
        match r {
            Some(x) => spec_get(j@, key@) == Some(x@),
            None => spec_get(j@, key@) is None,
        },
{
    match j {
        Json::Obj(members) => {
            let ghost mv = match j@ {
                JsonV::Obj(m) => m,
                _ => Seq::empty(),
            };
            assert(j@ is Obj);
            assert(j@ == JsonV::Obj(mv));
            assert(mv.len() == members@.len());
            assert forall|k: int| 0 <= k < members@.len() implies mv[k] == (
                #[trigger] members@[k].0@,
                members@[k].1@,
            ) by {}
            assert(mv.skip(0) =~= mv);
            let mut i: usize = 0;
            while i < members.len()
                invariant
                    i <= members@.len(),
                    j@ == JsonV::Obj(mv),
                    mv.len() == members@.len(),
                    forall|k: int| 0 <= k < members@.len() ==> mv[k] == (#[trigger] members@[k].0@, members@[k].1@),
                    member(mv, key@) == member(mv.skip(i as int), key@),
                decreases members@.len() - i,
            {
                assert(mv.skip(i as int).drop_first() =~= mv.skip(i + 1));
                assert(mv.skip(i as int)[0] == mv[i as int]);
                if str_eq(members[i].0.as_str(), key) {
                    assert(mv[i as int] == (members@[i as int].0@, members@[i as int].1@));
                    assert(mv.skip(i as int)[0].0 == key@);
                    assert(member(mv.skip(i as int), key@) == Some(members@[i as int].1@));
                    assert(spec_get(j@, key@) == member(mv, key@));
                    let x = &members[i].1;
                    assert(x@ == members@[i as int].1@);
                    return Some(x);
                }
                i += 1;
            }
            assert(mv.skip(i as int).len() == 0);
            None
        },
        _ => None,
    }
}

/// The text of a JSON string.
pub fn as_str(j: &Json) -> (r: Option<&str>)
    ensures
        match r {
            Some(t) => j@ == JsonV::Str(t@),
            None => !(j@ is Str),
        },
{
    match j {
        Json::Str(t) => Some(t.as_str()),
        _ => None,
    }
}

} // verus!
