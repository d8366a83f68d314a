//! Reading a JSON value the way the host's payloads are read: a member of an object by its key, an
//! element of an array by its place, and each value by its type, `None` where it has another.

use vstd::prelude::*;

use crate::effects::Json;
use crate::text::same_text;

verus! {

broadcast use vstd::string::group_string_axioms;

/// A reference's value, kept in its option.
pub open spec fn opt_deref(o: Option<&Json>) -> Option<Json> {
    match o {
        Some(j) => Some(*j),
        None => None,
    }
}

/// The member `key` of an object's members: the first one under that key.
pub open spec fn member_of(members: Seq<(String, Json)>, key: Seq<char>) -> Option<Json>
    decreases members.len(),
{
    if members.len() == 0 {
        None
    } else if members[0].0@ == key {
        Some(members[0].1)
    } else {
        member_of(members.drop_first(), key)
    }
}

/// The member `key` of a value, when the value is an object.
pub open spec fn get_of(j: Json, key: Seq<char>) -> Option<Json> {
    match j {
        Json::Object(members) => member_of(members@, key),
        _ => None,
    }
}

/// The text a value holds, when it is text.
pub open spec fn text_of(j: Option<Json>) -> Option<Seq<char>> {
    match j {
        Some(Json::Text(s)) => Some(s@),
        _ => None,
    }
}

/// Whether a value is `true`.
pub open spec fn is_true(j: Option<Json>) -> bool {
    j matches Some(Json::Bool(true))
}

/// The value as a signed 64-bit integer, when it is an integer in that range.
pub open spec fn i64_of(j: Option<Json>) -> Option<i64> {
    match j {
        Some(Json::UInt(u)) => if u <= i64::MAX {
            Some(u as i64)
        } else {
            None
        },
        Some(Json::Int(i)) => Some(i),
        _ => None,
    }
}

/// The value as an unsigned 64-bit integer, when it is a non-negative integer.
pub open spec fn u64_of(j: Option<Json>) -> Option<u64> {
    match j {
        Some(Json::UInt(u)) => Some(u),
        Some(Json::Int(i)) => if i >= 0 {
            Some(i as u64)
        } else {
            None
        },
        _ => None,
    }
}

/// The member `key` of an object's members.
pub fn member<'a>(members: &'a Vec<(String, Json)>, key: &str) -> (found: Option<&'a Json>)
    ensures
        opt_deref(found) == member_of(members@, key@),
{
    let mut i: usize = 0;
    proof {
        assert(members@.subrange(0, members@.len() as int) =~= members@);
    }
    while i < members.len()
        invariant
            0 <= i <= members@.len(),
            member_of(members@, key@) == member_of(members@.subrange(i as int, members@.len() as int), key@),
        decreases members@.len() - i,
    {
        let ghost rest = members@.subrange(i as int, members@.len() as int);
        proof {
            assert(rest.drop_first() =~= members@.subrange(i + 1, members@.len() as int));
            assert(rest[0] == members@[i as int]);
        }
        if same_text(members[i].0.as_str(), key) {
            return Some(&members[i].1);
        }
        i = i + 1;
    }
    None
}

/// The member `key` of a value, when the value is an object.
pub fn get<'a>(value: &'a Json, key: &str) -> (found: Option<&'a Json>)
    ensures
        opt_deref(found) == get_of(*value, key@),
{
    match value {
        Json::Object(members) => member(members, key),
        _ => None,
    }
}

/// The text a value holds.
pub fn as_text<'a>(value: Option<&'a Json>) -> (text: Option<&'a str>)
    ensures
        match text {
            Some(t) => text_of(opt_deref(value)) == Some(t@),
            None => text_of(opt_deref(value)) is None,
        },
{
    match value {
        Some(Json::Text(s)) => Some(s.as_str()),
        _ => None,
    }
}

/// Whether a value is `true`.
pub fn as_true(value: Option<&Json>) -> (on: bool)
    ensures
        on == is_true(opt_deref(value)),
{
    match value {
        Some(Json::Bool(b)) => *b,
        _ => false,
    }
}

/// The value as a signed 64-bit integer.
pub fn as_i64(value: Option<&Json>) -> (n: Option<i64>)
    ensures
        n == i64_of(opt_deref(value)),
{
    match value {
        Some(Json::UInt(u)) => if *u <= 9223372036854775807u64 {
            Some(*u as i64)
        } else {
            None
        },
        Some(Json::Int(i)) => Some(*i),
        _ => None,
    }
}

/// The value as an unsigned 64-bit integer.
pub fn as_u64(value: Option<&Json>) -> (n: Option<u64>)
    ensures
        n == u64_of(opt_deref(value)),
{
    match value {
        Some(Json::UInt(u)) => Some(*u),
        Some(Json::Int(i)) => if *i >= 0 {
            Some(*i as u64)
        } else {
            None
        },
        _ => None,
    }
}

/// The text of an optional borrowed string.
pub open spec fn str_view(s: Option<&str>) -> Option<Seq<char>> {
    match s {
        Some(t) => Some(t@),
        None => None,
    }
}

/// The text of an optional owned string.
pub open spec fn string_view(s: Option<String>) -> Option<Seq<char>> {
    match s {
        Some(t) => Some(t@),
        None => None,
    }
}

/// An owned copy of an optional borrowed string.
pub fn owned(s: Option<&str>) -> (o: Option<String>)
    ensures
        string_view(o) == str_view(s),
{
    match s {
        Some(t) => Some(String::from_str(t)),
        None => None,
    }
}

/// The element at `index` of a value, when the value is an array that long.
pub open spec fn element_of(j: Json, index: int) -> Option<Json> {
    match j {
        Json::Array(elements) => if 0 <= index < elements@.len() {
            Some(elements@[index])
        } else {
            None
        },
        _ => None,
    }
}

/// The element at `index` of a value.
pub fn element<'a>(value: &'a Json, index: usize) -> (found: Option<&'a Json>)
    ensures
        opt_deref(found) == element_of(*value, index as int),
{
    match value {
        Json::Array(elements) => if index < elements.len() {
            Some(&elements[index])
        } else {
            None
        },
        _ => None,
    }
}

/// The member `key` of an optional value.
pub fn get_in<'a>(value: Option<&'a Json>, key: &str) -> (found: Option<&'a Json>)
    ensures
        opt_deref(found) == match opt_deref(value) {
            Some(j) => get_of(j, key@),
            None => None,
        },
{
    match value {
        Some(j) => get(j, key),
        None => None,
    }
}

} // verus!
