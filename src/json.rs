//! A plain model of a JSON document, as the bridge sends it.
use vstd::prelude::*;

verus! {

/// A JSON number: integers as values, any other number as its text.
#[derive(Debug, Clone, PartialEq)]
pub enum JsonNumber {
    /// A non-negative integer.
    PosInt(u64),
    /// A negative integer.
    NegInt(i64),
    /// A number that is not an integer, as written in the document.
    NonInteger(String),
}

/// A JSON value. An object keeps its members in document order.
#[derive(Debug)]
pub enum JsonValue {
    Null,
    Bool(bool),
    Number(JsonNumber),
    Str(String),
    Array(Vec<JsonValue>),
    Object(Vec<(String, JsonValue)>),
}

/// The value behind an optional reference.
pub open spec fn unref<T>(o: Option<&T>) -> Option<T> {
    match o {
        Some(x) => Some(*x),
        None => None,
    }
}

/// The value of the first member named `key` at index `i` or later.
pub open spec fn member_from(members: Seq<(String, JsonValue)>, key: Seq<char>, i: int) -> Option<JsonValue>
    decreases members.len() - i,
{
    if i < 0 || i >= members.len() {
        None
    } else if members[i].0@ == key {
        Some(members[i].1)
    } else {
        member_from(members, key, i + 1)
    }
}

/// The value of the first member named `key` of an object's members.
pub open spec fn member(members: Seq<(String, JsonValue)>, key: Seq<char>) -> Option<JsonValue> {
    member_from(members, key, 0)
}

/// The value of member `key` of `v`, where `v` is an object that has one.
pub open spec fn field(v: JsonValue, key: Seq<char>) -> Option<JsonValue> {
    match v {
        JsonValue::Object(members) => member(members@, key),
        _ => None,
    }
}

/// The string held by `v`, if it is a string.
pub open spec fn as_string(v: JsonValue) -> Option<String> {
    match v {
        JsonValue::Str(s) => Some(s),
        _ => None,
    }
}

/// The boolean held by `v`, if it is one.
pub open spec fn as_boolean(v: JsonValue) -> Option<bool> {
    match v {
        JsonValue::Bool(b) => Some(b),
        _ => None,
    }
}

/// The integer held by `v`, if it is a non-negative integer that fits `usize`.
pub open spec fn as_index(v: JsonValue) -> Option<usize> {
    match v {
        JsonValue::Number(JsonNumber::PosInt(n)) => if n <= usize::MAX {
            Some(n as usize)
        } else {
            None
        },
        _ => None,
    }
}

/// Past the removed index, the members without it answer `other` as the
/// members did one place further on.
proof fn lemma_remove_shifts(members: Seq<(String, JsonValue)>, i: int, other: Seq<char>, j: int)
    requires
        0 <= i <= j <= members.len() - 1,
    ensures
        member_from(members.remove(i), other, j) == member_from(members, other, j + 1),
    decreases members.len() - j,
{
    if j < members.len() - 1 {
        lemma_remove_shifts(members, i, other, j + 1);
        assert(members.remove(i)[j] == members[j + 1]);
    }
}

/// Up to the removed index, the members without it answer `other` as before,
/// when the removed member is named otherwise.
proof fn lemma_remove_keeps(members: Seq<(String, JsonValue)>, i: int, other: Seq<char>, j: int)
    requires
        0 <= j <= i < members.len(),
        members[i].0@ != other,
    ensures
        member_from(members.remove(i), other, j) == member_from(members, other, j),
    decreases i - j,
{
    if j < i {
        lemma_remove_keeps(members, i, other, j + 1);
        assert(members.remove(i)[j] == members[j]);
    } else {
        lemma_remove_shifts(members, i, other, j);
    }
}

/// Moves the value of the first member named `key` out of `members`; every
/// other key is answered as before.
pub fn take_member(members: &mut Vec<(String, JsonValue)>, key: &str) -> (r: Option<JsonValue>)
    ensures
        r == member(old(members)@, key@),
        forall|k: Seq<char>| k != key@ ==> #[trigger] member(final(members)@, k) == member(old(members)@, k),
{
    let wanted = key.to_owned();
    let mut i: usize = 0;
    while i < members.len()
        invariant
            0 <= i <= members.len(),
            wanted@ == key@,
            members@ == old(members)@,
            member(members@, key@) == member_from(members@, key@, i as int),
        decreases members.len() - i,
    {
        if members[i].0 == wanted {
            let ghost before = members@;
            let entry = members.remove(i);
            proof {
                assert forall|k: Seq<char>| k != key@ implies #[trigger] member(members@, k) == member(before, k) by {
                    lemma_remove_keeps(before, i as int, k, 0);
                }
            }
            return Some(entry.1);
        }
        i = i + 1;
    }
    None
}

impl JsonValue {
    /// The first member named `key`, where `self` is an object.
    pub fn get(&self, key: &str) -> (r: Option<&JsonValue>)
        ensures
            unref(r) == field(*self, key@),
    {
        match self {
            JsonValue::Object(members) => {
                let wanted = key.to_owned();
                let mut i: usize = 0;
                while i < members.len()
                    invariant
                        0 <= i <= members.len(),
                        wanted@ == key@,
                        field(*self, key@) == member(members@, key@),
                        member(members@, key@) == member_from(members@, key@, i as int),
                    decreases members.len() - i,
                {
                    if members[i].0 == wanted {
                        return Some(&members[i].1);
                    }
                    i = i + 1;
                }
                None
            },
            _ => None,
        }
    }

    /// The string held by `self`, if it is a string.
    pub fn as_str(&self) -> (r: Option<&String>)
        ensures
            unref(r) == as_string(*self),
    {
        match self {
            JsonValue::Str(s) => Some(s),
            _ => None,
        }
    }

    /// The boolean held by `self`, if it is one.
    pub fn as_bool(&self) -> (r: Option<bool>)
        ensures
            r == as_boolean(*self),
    {
        match self {
            JsonValue::Bool(b) => Some(*b),
            _ => None,
        }
    }

    /// The integer held by `self`, if it is a non-negative integer that fits `usize`.
    pub fn as_usize(&self) -> (r: Option<usize>)
        ensures
            r == as_index(*self),
    {
        match self {
            JsonValue::Number(JsonNumber::PosInt(n)) => {
                if *n <= usize::MAX as u64 {
                    Some(*n as usize)
                } else {
                    None
                }
            },
            _ => None,
        }
    }
}

} // verus!
