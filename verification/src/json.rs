//! JSON documents as the fetcher reads them from the site's answers.
use vstd::prelude::*;

verus! {

/// A JSON value. An object keeps its members in order; a number keeps what the
/// fetcher reads of it: its value when it is a whole number from 0 to
/// `u64::MAX`, and `None` for any other number. serde_json never repeats a key
/// in an object; where one is repeated here, its first member is the one read.
#[derive(Debug)]
pub enum JsonValue {
    Null,
    Bool(bool),
    Number(Option<u64>),
    Str(String),
    Array(Vec<JsonValue>),
    Object(Vec<(String, JsonValue)>),
}

/// The value of the first member named `key`, if any.
pub open spec fn member(members: Seq<(String, JsonValue)>, key: Seq<char>) -> Option<JsonValue>
    decreases members.len(),
{
    if members.len() == 0 {
        None
    } else if members[0].0@ == key {
        Some(members[0].1)
    } else {
        member(members.drop_first(), key)
    }
}

/// The member found under `key` is the first one named exactly `key`.
proof fn lemma_member_exact(members: Seq<(String, JsonValue)>, key: Seq<char>)
    ensures
        member(members, key) matches Some(x) ==> exists|i: int|
            0 <= i < members.len() && members[i].0@ == key && members[i].1 == x && forall|j: int|
                0 <= j < i ==> members[j].0@ != key,
        member(members, key) is None <==> forall|i: int|
            0 <= i < members.len() ==> members[i].0@ != key,
    decreases members.len(),
{
    if members.len() > 0 {
        let rest = members.drop_first();
        lemma_member_exact(rest, key);
        if members[0].0@ != key {
            if let Some(x) = member(members, key) {
                let i = choose|i: int|
                    0 <= i < rest.len() && rest[i].0@ == key && rest[i].1 == x && forall|j: int|
                        0 <= j < i ==> rest[j].0@ != key;
                assert(members[i + 1] == rest[i]);
                assert forall|j: int| 0 <= j < i + 1 implies members[j].0@ != key by {
                    if j > 0 {
                        assert(members[j] == rest[j - 1]);
                    }
                }
            }
            assert((forall|i: int| 0 <= i < members.len() ==> members[i].0@ != key) <==> (forall|
                i: int,
            | 0 <= i < rest.len() ==> rest[i].0@ != key)) by {
                if forall|i: int| 0 <= i < rest.len() ==> rest[i].0@ != key {
                    assert forall|i: int| 0 <= i < members.len() implies members[i].0@ != key by {
                        if i > 0 {
                            assert(members[i] == rest[i - 1]);
                        }
                    }
                }
                if forall|i: int| 0 <= i < members.len() ==> members[i].0@ != key {
                    assert forall|i: int| 0 <= i < rest.len() implies rest[i].0@ != key by {
                        assert(members[i + 1] == rest[i]);
                    }
                }
            }
        }
    }
}

/// Law: a member is found only under its exact name. On an object, `get`
/// gives the value of the first member named exactly `key`, and nothing when
/// no member has that name; on anything else it gives nothing.
pub proof fn lemma_get_exact_name(v: JsonValue, key: Seq<char>)
    ensures
        match v {
            JsonValue::Object(members) => {
                &&& (v.get_spec(key) matches Some(x) ==> exists|i: int|
                    0 <= i < members@.len() && members@[i].0@ == key && members@[i].1 == x
                        && forall|j: int| 0 <= j < i ==> members@[j].0@ != key)
                &&& (v.get_spec(key) is None <==> forall|i: int|
                    0 <= i < members@.len() ==> members@[i].0@ != key)
            },
            _ => v.get_spec(key) is None,
        },
{
    if let JsonValue::Object(members) = v {
        lemma_member_exact(members@, key);
    }
}

impl JsonValue {
    /// The member `key` of an object; `None` when `self` is no object or has no
    /// such member.
    pub open spec fn get_spec(self, key: Seq<char>) -> Option<JsonValue> {
        match self {
            JsonValue::Object(members) => member(members@, key),
            _ => None,
        }
    }

    /// `self[key]` as serde_json reads it: the member `key` of an object, and
    /// `null` wherever there is none.
    pub open spec fn at(self, key: Seq<char>) -> JsonValue {
        match self.get_spec(key) {
            Some(v) => v,
            None => JsonValue::Null,
        }
    }

    /// `self[i]` as serde_json reads it: the item `i` of an array, and `null`
    /// wherever there is none.
    pub open spec fn nth(self, i: int) -> JsonValue {
        match self {
            JsonValue::Array(items) => if 0 <= i < items@.len() {
                items@[i]
            } else {
                JsonValue::Null
            },
            _ => JsonValue::Null,
        }
    }

    /// What `as_u64` gives.
    pub open spec fn u64_value(self) -> Option<u64> {
        match self {
            JsonValue::Number(n) => n,
            _ => None,
        }
    }

    /// What `as_str` gives, as characters.
    pub open spec fn str_value(self) -> Option<Seq<char>> {
        match self {
            JsonValue::Str(s) => Some(s@),
            _ => None,
        }
    }

    /// What `as_bool` gives.
    pub open spec fn bool_value(self) -> Option<bool> {
        match self {
            JsonValue::Bool(b) => Some(b),
            _ => None,
        }
    }

    /// What `as_array` gives.
    pub open spec fn items(self) -> Option<Seq<JsonValue>> {
        match self {
            JsonValue::Array(items) => Some(items@),
            _ => None,
        }
    }

    /// The member `key` of an object (serde_json's `Value::get` with a string).
    pub fn get(&self, key: &str) -> (r: Option<&JsonValue>)
        ensures
            match r {
                Some(v) => self.get_spec(key@) == Some(*v),
                None => self.get_spec(key@) is None,
            },
    {
        match self {
            JsonValue::Object(members) => {
                let wanted = String::from_str(key);
                assert(self.get_spec(key@) == member(members@, key@));
                let n = members.len();
                let mut i: usize = 0;
                assert(members@.skip(0) =~= members@);
                while i < n
                    invariant
                        0 <= i <= n,
                        n == members@.len(),
                        wanted@ == key@,
                        self.get_spec(key@) == member(members@, key@),
                        member(members@.skip(i as int), key@) == member(members@, key@),
                    decreases n - i,
                {
                    assert(members@.skip(i as int)[0] == members@[i as int]);
                    if members[i].0 == wanted {
                        return Some(&members[i].1);
                    }
                    assert(members@.skip(i as int).drop_first() =~= members@.skip(i + 1));
                    i = i + 1;
                }
                None
            },
            _ => None,
        }
    }

    /// The number, when `self` is a whole number that fits in a `u64`.
    pub fn as_u64(&self) -> (r: Option<u64>)
        ensures
            r == self.u64_value(),
    {
        match self {
            JsonValue::Number(n) => *n,
            _ => None,
        }
    }

    /// The text, when `self` is a string.
    pub fn as_str(&self) -> (r: Option<&str>)
        ensures
            match r {
                Some(s) => self.str_value() == Some(s@),
                None => self.str_value() is None,
            },
    {
        match self {
            JsonValue::Str(s) => Some(s.as_str()),
            _ => None,
        }
    }

    /// The truth value, when `self` is a boolean.
    pub fn as_bool(&self) -> (r: Option<bool>)
        ensures
            r == self.bool_value(),
    {
        match self {
            JsonValue::Bool(b) => Some(*b),
            _ => None,
        }
    }

    /// The items, when `self` is an array.
    pub fn as_array(&self) -> (r: Option<&Vec<JsonValue>>)
        ensures
            match r {
                Some(items) => self.items() == Some(items@),
                None => self.items() is None,
            },
    {
        match self {
            JsonValue::Array(items) => Some(items),
            _ => None,
        }
    }

    /// `self[key].as_u64().unwrap()`.
    pub fn u64_at(&self, key: &str) -> (r: u64)
        requires
            self.at(key@).u64_value() is Some,
        ensures
            Some(r) == self.at(key@).u64_value(),
    {
        match self.get(key) {
            Some(v) => match v.as_u64() {
                Some(n) => n,
                None => 0,
            },
            None => 0,
        }
    }

    /// `self[key].as_str().unwrap().to_owned()`.
    pub fn string_at(&self, key: &str) -> (r: String)
        requires
            self.at(key@).str_value() is Some,
        ensures
            Some(r@) == self.at(key@).str_value(),
    {
        match self.get(key) {
            Some(v) => match v.as_str() {
                Some(s) => s.to_owned(),
                None => String::new(),
            },
            None => String::new(),
        }
    }
}

} // verus!
