//! A JSON document as the library reads it: the values that GitHub's API
//! answers with, and the lookups made into them.
//!
//! Lookups follow the indexing of `serde_json::Value`: a missing member, an
//! index out of range, or a lookup into a value of the wrong kind gives
//! `null`, and `as_str` gives the text of a string value only.

use vstd::prelude::*;
use crate::text::str_eq;

verus! {

/// A JSON value. Numbers are held as their literal text.
#[derive(Debug, PartialEq)]
pub enum JsonValue {
    Null,
    Bool(bool),
    Number(String),
    Str(String),
    Array(Vec<JsonValue>),
    Object(Vec<(String, JsonValue)>),
}

/// The value of the first member named `key`, if any.
pub open spec fn member_value(entries: Seq<(String, JsonValue)>, key: Seq<char>) -> Option<JsonValue>
    decreases entries.len(),
{
    if entries.len() == 0 {
        None
    } else if entries[0].0@ == key {
        Some(entries[0].1)
    } else {
        member_value(entries.drop_first(), key)
    }
}

/// `v[key]`: the member `key` of an object, `null` otherwise.
pub open spec fn json_get(v: JsonValue, key: Seq<char>) -> JsonValue {
    match v {
        JsonValue::Object(entries) => match member_value(entries@, key) {
            Some(x) => x,
            None => JsonValue::Null,
        },
        _ => JsonValue::Null,
    }
}

/// `v[i]`: the element `i` of an array, `null` otherwise.
pub open spec fn json_at(v: JsonValue, i: int) -> JsonValue {
    match v {
        JsonValue::Array(items) => if 0 <= i < items@.len() {
            items@[i]
        } else {
            JsonValue::Null
        },
        _ => JsonValue::Null,
    }
}

/// `v.as_str()`: the text of a string value.
pub open spec fn json_str(v: JsonValue) -> Option<Seq<char>> {
    match v {
        JsonValue::Str(s) => Some(s@),
        _ => None,
    }
}

/// A looked-up value, with absence read as `null`.
pub open spec fn or_null(r: Option<&JsonValue>) -> JsonValue {
    match r {
        Some(x) => *x,
        None => JsonValue::Null,
    }
}

impl JsonValue {
    /// The member `key` of an object; `None` where `v[key]` is a missing `null`.
    pub fn get<'a>(&'a self, key: &str) -> (r: Option<&'a JsonValue>)
        ensures
            or_null(r) == json_get(*self, key@),
    {
        match self {
            JsonValue::Object(entries) => {
                let mut i: usize = 0;
                assert(entries@.skip(0) == entries@);
                while i < entries.len()
                    invariant
                        i <= entries.len(),
                        *self == JsonValue::Object(*entries),
                        member_value(entries@, key@) == member_value(entries@.skip(i as int), key@),
                    decreases entries.len() - i,
                {
                    assert(entries@.skip(i as int)[0] == entries@[i as int]);
                    if str_eq(entries[i].0.as_str(), key) {
                        return Some(&entries[i].1);
                    }
                    assert(entries@.skip(i as int).drop_first() == entries@.skip(i + 1));
                    i = i + 1;
                }
                None
            },
            _ => None,
        }
    }

    /// The element `i` of an array; `None` where `v[i]` is a missing `null`.
    pub fn at<'a>(&'a self, i: usize) -> (r: Option<&'a JsonValue>)
        ensures
            or_null(r) == json_at(*self, i as int),
    {
        match self {
            JsonValue::Array(items) => if i < items.len() {
                Some(&items[i])
            } else {
                None
            },
            _ => None,
        }
    }

    /// The text of a string value.
    pub fn as_str<'a>(&'a self) -> (r: Option<&'a str>)
        ensures
            match r {
                Some(s) => json_str(*self) == Some(s@),
                None => json_str(*self) is None,
            },
    {
        match self {
            JsonValue::Str(s) => Some(s.as_str()),
            _ => None,
        }
    }
}

/// The text of `v` where `v` was looked up and is a string.
pub fn str_of<'a>(v: Option<&'a JsonValue>) -> (r: Option<&'a str>)
    ensures
        match r {
            Some(s) => json_str(or_null(v)) == Some(s@),
            None => json_str(or_null(v)) is None,
        },
{
    match v {
        Some(x) => x.as_str(),
        None => None,
    }
}

} // verus!
