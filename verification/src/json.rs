//! JSON documents as plain values.

use crate::scalar::Scalar;
use crate::text;
use vstd::prelude::*;
use vstd::string::*;

verus! {

/// A JSON number: its value as an unsigned integer, if it is one, and the
/// single-precision number nearest to it.
#[derive(Clone, Copy, Debug)]
pub struct JsonNumber {
    pub unsigned: Option<u64>,
    pub single: Scalar,
}

/// A JSON document. The names of an object's entries are distinct.
#[derive(Debug)]
pub enum Json {
    Null,
    Bool(bool),
    Number(JsonNumber),
    Text(String),
    Array(Vec<Json>),
    Object(Vec<(String, Json)>),
}

/// The value under `name` in the entries of an object.
pub open spec fn lookup(entries: Seq<(String, Json)>, name: Seq<char>) -> Option<Json>
    decreases entries.len(),
{
    if entries.len() == 0 {
        None
    } else if entries[0].0@ == name {
        Some(entries[0].1)
    } else {
        lookup(entries.drop_first(), name)
    }
}

/// The entry `name` of an object; nothing else has entries.
pub open spec fn field(doc: Json, name: Seq<char>) -> Option<Json> {
    match doc {
        Json::Object(entries) => lookup(entries@, name),
        _ => None,
    }
}

/// Item `i` of an array; nothing else has items.
pub open spec fn item(doc: Json, i: int) -> Option<Json> {
    match doc {
        Json::Array(items) => if 0 <= i < items@.len() {
            Some(items@[i])
        } else {
            None
        },
        _ => None,
    }
}

/// The text of a string document.
pub open spec fn text_of(doc: Json) -> Option<Seq<char>> {
    match doc {
        Json::Text(s) => Some(s@),
        _ => None,
    }
}

/// The text under `name`, if it is there and is a string.
pub open spec fn text_field(doc: Json, name: Seq<char>) -> Option<Seq<char>> {
    match field(doc, name) {
        Some(value) => text_of(value),
        None => None,
    }
}

/// The text under `name`, empty if it is not there or not a string.
pub open spec fn text_field_or_empty(doc: Json, name: Seq<char>) -> Seq<char> {
    match text_field(doc, name) {
        Some(t) => t,
        None => Seq::empty(),
    }
}

/// The unsigned integer that a document is.
pub open spec fn unsigned_of(doc: Json) -> Option<u64> {
    match doc {
        Json::Number(n) => n.unsigned,
        _ => None,
    }
}

/// The single-precision number that a document is.
pub open spec fn single_of(doc: Json) -> Option<Scalar> {
    match doc {
        Json::Number(n) => Some(n.single),
        _ => None,
    }
}

/// The number under `name`, or `default`.
pub open spec fn single_field_or(doc: Json, name: Seq<char>, default: Scalar) -> Scalar {
    match field(doc, name) {
        Some(value) => match single_of(value) {
            Some(n) => n,
            None => default,
        },
        None => default,
    }
}

impl Json {
    /// The entry `name` of an object.
    pub fn get(&self, name: &str) -> (r: Option<&Json>)
        ensures
            match r {
                Some(value) => field(*self, name@) == Some(*value),
                None => field(*self, name@) is None,
            },
    {
        match self {
            Json::Object(entries) => {
                let mut i: usize = 0;
                proof {
                    assert(entries@.skip(0) =~= entries@);
                }
                while i < entries.len()
                    invariant
                        i <= entries.len(),
                        field(*self, name@) == lookup(entries@.skip(i as int), name@),
                    decreases entries.len() - i,
                {
                    proof {
                        assert(entries@.skip(i as int).drop_first() =~= entries@.skip(i + 1));
                    }
                    if text::same(entries[i].0.as_str(), name) {
                        return Some(&entries[i].1);
                    }
                    i = i + 1;
                }
                None
            },
            _ => None,
        }
    }

    /// Item `i` of an array.
    pub fn at(&self, i: usize) -> (r: Option<&Json>)
        ensures
            match r {
                Some(value) => item(*self, i as int) == Some(*value),
                None => item(*self, i as int) is None,
            },
    {
        match self {
            Json::Array(items) => if i < items.len() {
                Some(&items[i])
            } else {
                None
            },
            _ => None,
        }
    }

    pub fn is_null(&self) -> (r: bool)
        ensures
            r == (*self is Null),
    {
        match self {
            Json::Null => true,
            _ => false,
        }
    }

    pub fn as_text(&self) -> (r: Option<&String>)
        ensures
            match r {
                Some(s) => text_of(*self) == Some(s@),
                None => text_of(*self) is None,
            },
    {
        match self {
            Json::Text(s) => Some(s),
            _ => None,
        }
    }

    pub fn as_unsigned(&self) -> (r: Option<u64>)
        ensures
            r == unsigned_of(*self),
    {
        match self {
            Json::Number(n) => n.unsigned,
            _ => None,
        }
    }

    pub fn as_single(&self) -> (r: Option<Scalar>)
        ensures
            r == single_of(*self),
    {
        match self {
            Json::Number(n) => Some(n.single),
            _ => None,
        }
    }

    /// The text under `name`.
    pub fn text_field(&self, name: &str) -> (r: Option<&String>)
        ensures
            match r {
                Some(s) => text_field(*self, name@) == Some(s@),
                None => text_field(*self, name@) is None,
            },
    {
        match self.get(name) {
            Some(value) => value.as_text(),
            None => None,
        }
    }

    /// The text under `name`, empty if there is none.
    pub fn text_field_or_empty(&self, name: &str) -> (r: String)
        ensures
            r@ == text_field_or_empty(*self, name@),
    {
        match self.text_field(name) {
            Some(s) => s.clone(),
            None => String::new(),
        }
    }

    /// The number under `name`, or `default`.
    pub fn single_field_or(&self, name: &str, default: Scalar) -> (r: Scalar)
        ensures
            r == single_field_or(*self, name@, default),
    {
        match self.get(name) {
            Some(value) => match value.as_single() {
                Some(n) => n,
                None => default,
            },
            None => default,
        }
    }
}

} // verus!
