//! A JSON document as the library reads it.
//!
//! Release indexes arrive as JSON; the application parses them and hands the
//! library this plain tree. Numbers keep their text; an object's members come
//! in the order the parser lists them (sorted by key with `serde_json`'s
//! default map), which is the order lookups and scans see.
use crate::text::{chars_of, eq};
use vstd::prelude::*;

verus! {

#[derive(Debug)]
pub enum Json {
    Null,
    Bool(bool),
    /// A number, as written.
    Number(String),
    Str(String),
    Array(Vec<Json>),
    /// Members, in the order the parser lists them.
    Object(Vec<(String, Json)>),
}

/// The first member of `members` at or after `i` named `key`.
pub open spec fn member_from(members: Seq<(String, Json)>, key: Seq<char>, i: int) -> Option<Json>
    decreases members.len() - i,
{
    if i < 0 || i >= members.len() {
        None
    } else if members[i].0@ == key {
        Some(members[i].1)
    } else {
        member_from(members, key, i + 1)
    }
}

/// `value.get(key)`: the member named `key` of an object; nothing for other values.
pub open spec fn field(j: Json, key: Seq<char>) -> Option<Json> {
    match j {
        Json::Object(members) => member_from(members@, key, 0),
        _ => None,
    }
}

/// `value.as_str()`.
pub open spec fn str_of(j: Json) -> Option<Seq<char>> {
    match j {
        Json::Str(s) => Some(s@),
        _ => None,
    }
}

/// `value.get(key).and_then(as_str)`.
pub open spec fn str_field(j: Json, key: Seq<char>) -> Option<Seq<char>> {
    match field(j, key) {
        Some(v) => str_of(v),
        None => None,
    }
}

/// `value.as_array()`.
pub open spec fn array_of(j: Json) -> Option<Seq<Json>> {
    match j {
        Json::Array(items) => Some(items@),
        _ => None,
    }
}

/// `value.as_bool()`.
pub open spec fn bool_of(j: Json) -> Option<bool> {
    match j {
        Json::Bool(b) => Some(b),
        _ => None,
    }
}

/// `value.get(key).and_then(as_bool)`.
pub open spec fn bool_field(j: Json, key: Seq<char>) -> Option<bool> {
    match field(j, key) {
        Some(v) => bool_of(v),
        None => None,
    }
}

/// `value.get(key).and_then(as_array)`.
pub open spec fn array_field(j: Json, key: Seq<char>) -> Option<Seq<Json>> {
    match field(j, key) {
        Some(v) => array_of(v),
        None => None,
    }
}

/// `value.as_object()`: the members of an object.
pub open spec fn members_of(j: Json) -> Option<Seq<(String, Json)>> {
    match j {
        Json::Object(members) => Some(members@),
        _ => None,
    }
}

/// `opt.unwrap_or(default)` on character sequences.
pub open spec fn or_default(o: Option<Seq<char>>, d: Seq<char>) -> Seq<char> {
    match o {
        Some(s) => s,
        None => d,
    }
}

/// The first member named `key`.
pub fn member_exec<'a>(members: &'a Vec<(String, Json)>, key: &str) -> (r: Option<&'a Json>)
    ensures
        match r {
            Some(v) => member_from(members@, key@, 0) == Some(*v),
            None => member_from(members@, key@, 0) is None,
        },
{
    let k = chars_of(key);
    let mut i: usize = 0;
    while i < members.len()
        invariant
            i <= members@.len(),
            k@ == key@,
            member_from(members@, key@, 0) == member_from(members@, key@, i as int),
        decreases members.len() - i,
    {
        if eq(chars_of(members[i].0.as_str()).as_slice(), k.as_slice()) {
            return Some(&members[i].1);
        }
        i = i + 1;
    }
    None
}

impl Json {
    /// The member named `key` of an object.
    pub fn get(&self, key: &str) -> (r: Option<&Json>)
        ensures
            match r {
                Some(v) => field(*self, key@) == Some(*v),
                None => field(*self, key@) is None,
            },
    {
        match self {
            Json::Object(members) => member_exec(members, key),
            _ => None,
        }
    }

    /// The text of a string value.
    pub fn as_str(&self) -> (r: Option<&str>)
        ensures
            match r {
                Some(s) => str_of(*self) == Some(s@),
                None => str_of(*self) is None,
            },
    {
        match self {
            Json::Str(s) => Some(s.as_str()),
            _ => None,
        }
    }

    /// The items of an array value.
    pub fn as_array(&self) -> (r: Option<&Vec<Json>>)
        ensures
            match r {
                Some(v) => array_of(*self) == Some(v@),
                None => array_of(*self) is None,
            },
    {
        match self {
            Json::Array(items) => Some(items),
            _ => None,
        }
    }

    /// The members of an object value.
    pub fn as_object(&self) -> (r: Option<&Vec<(String, Json)>>)
        ensures
            match r {
                Some(v) => members_of(*self) == Some(v@),
                None => members_of(*self) is None,
            },
    {
        match self {
            Json::Object(members) => Some(members),
            _ => None,
        }
    }

    /// The value of a boolean.
    pub fn as_bool(&self) -> (r: Option<bool>)
        ensures
            r == bool_of(*self),
    {
        match self {
            Json::Bool(b) => Some(*b),
            _ => None,
        }
    }

    /// Whether this is an object.
    pub fn is_object(&self) -> (r: bool)
        ensures
            r == (*self is Object),
    {
        match self {
            Json::Object(_) => true,
            _ => false,
        }
    }

    /// The boolean member named `key`.
    pub fn bool_field(&self, key: &str) -> (r: Option<bool>)
        ensures
            r == bool_field(*self, key@),
    {
        match self.get(key) {
            Some(v) => v.as_bool(),
            None => None,
        }
    }

    /// The string member named `key`.
    pub fn str_field(&self, key: &str) -> (r: Option<&str>)
        ensures
            match r {
                Some(s) => str_field(*self, key@) == Some(s@),
                None => str_field(*self, key@) is None,
            },
    {
        match self.get(key) {
            Some(v) => v.as_str(),
            None => None,
        }
    }

    /// The array member named `key`.
    pub fn array_field(&self, key: &str) -> (r: Option<&Vec<Json>>)
        ensures
            match r {
                Some(v) => array_field(*self, key@) == Some(v@),
                None => array_field(*self, key@) is None,
            },
    {
        match self.get(key) {
            Some(v) => v.as_array(),
            None => None,
        }
    }
}

} // verus!
