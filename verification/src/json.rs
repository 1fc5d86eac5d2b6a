//! A plain JSON document model and the accessors the data parsers use.

use vstd::prelude::*;
use crate::text::str_eq;

verus! {

/// A JSON value. Integral numbers that fit in `i64` are `Int`, larger
/// non-negative integers are `UInt`, all other numbers are `Float`.
pub enum Json {
    Null,
    Bool(bool),
    Int(i64),
    UInt(u64),
    Float,
    Str(String),
    Array(Vec<Json>),
    Object(Vec<(String, Json)>),
}

/// The value as an unsigned integer, if it is a non-negative integer
pub open spec fn json_u64(v: Json) -> Option<u64> {
    match v {
        Json::Int(n) => if n >= 0 { Some(n as u64) } else { None },
        Json::UInt(n) => Some(n),
        _ => None,
    }
}

/// The value as a signed integer, if it is an integer that fits in `i64`
pub open spec fn json_i64(v: Json) -> Option<i64> {
    match v {
        Json::Int(n) => Some(n),
        _ => None,
    }
}

/// The first value of `key` among the entries from index `k` on
pub open spec fn entry_from(entries: Seq<(String, Json)>, key: Seq<char>, k: int) -> Option<Json>
    decreases entries.len() - k,
{
    if k < 0 || k >= entries.len() {
        None
    } else if entries[k].0@ == key {
        Some(entries[k].1)
    } else {
        entry_from(entries, key, k + 1)
    }
}

/// The value of a member of an object (the first entry with that key)
pub open spec fn member(v: Json, key: Seq<char>) -> Option<Json> {
    match v {
        Json::Object(entries) => entry_from(entries@, key, 0),
        _ => None,
    }
}

impl Json {
    /// The value as an unsigned integer
    pub fn as_u64(&self) -> (r: Option<u64>)
        ensures
            r == json_u64(*self),
    {
        match self {
            Json::Int(n) => if *n >= 0 { Some(*n as u64) } else { None },
            Json::UInt(n) => Some(*n),
            _ => None,
        }
    }

    /// The value as a signed integer
    pub fn as_i64(&self) -> (r: Option<i64>)
        ensures
            r == json_i64(*self),
    {
        match self {
            Json::Int(n) => Some(*n),
            _ => None,
        }
    }

    /// The value as a string slice
    pub fn as_str(&self) -> (r: Option<&str>)
        ensures
            match *self {
                Json::Str(s) => r matches Some(x) && x@ == s@,
                _ => r is None,
            },
    {
        match self {
            Json::Str(s) => Some(s.as_str()),
            _ => None,
        }
    }

    /// A member of an object
    pub fn get(&self, key: &str) -> (r: Option<&Json>)
        ensures
            member(*self, key@) == (match r {
                Some(x) => Some(*x),
                None => None,
            }),
    {
        match self {
            Json::Object(entries) => {
                let mut i: usize = 0;
                while i < entries.len()
                    invariant
                        i <= entries@.len(),
                        member(*self, key@) == entry_from(entries@, key@, 0),
                        entry_from(entries@, key@, 0) == entry_from(entries@, key@, i as int),
                    decreases entries@.len() - i,
                {
                    if str_eq(entries[i].0.as_str(), key) {
                        assert(entry_from(entries@, key@, i as int) == Some(entries@[i as int].1));
                        return Some(&entries[i].1);
                    }
                    i = i + 1;
                }
                None
            },
            _ => None,
        }
    }
}

/// A document of serde_json
#[verifier::external_type_specification]
#[verifier::external_body]
pub struct ExJsonValue(serde_json::Value);

/// The document a text holds (as parsed by `serde_json::from_str`), if it
/// is JSON
pub uninterp spec fn json_document(text: Seq<char>) -> Option<Json>;

/// The library's value of a serde_json document: the same tree, variant
/// for variant (a number as `Int` when it fits in `i64`, else `UInt` when it
/// fits in `u64`, else `Float`)
#[verifier::external_body]
fn json_of_value(v: &serde_json::Value) -> Json {
    match v {
        serde_json::Value::Null => Json::Null,
        serde_json::Value::Bool(b) => Json::Bool(*b),
        serde_json::Value::Number(n) => match (n.as_i64(), n.as_u64()) {
            (Some(i), _) => Json::Int(i),
            (None, Some(u)) => Json::UInt(u),
            _ => Json::Float,
        },
        serde_json::Value::String(s) => Json::Str(s.clone()),
        serde_json::Value::Array(a) => Json::Array(a.iter().map(json_of_value).collect()),
        serde_json::Value::Object(o) => Json::Object(o.iter().map(|(k, x)| (k.clone(), json_of_value(x))).collect()),
    }
}

/// Parse a JSON text (serde_json `from_str` into a `Value`): the document
/// it holds, or none when it is not JSON; the same text always gives the
/// same document
#[verifier::external_body]
pub fn parse_json(text: &str) -> (r: Option<Json>)
    ensures
        r == json_document(text@),
{
    serde_json::from_str::<serde_json::Value>(text).ok().map(|v| json_of_value(&v))
}

} // verus!
