//! A JSON document as the feed handlers read it.  Numbers are held as the
//! decimal text of their value; objects as their members in order.
use vstd::prelude::*;

verus! {

/// A JSON value.
#[derive(Debug)]
pub enum JsonValue {
    Null,
    Bool(bool),
    /// A number, as the decimal text of its value.
    Number(String),
    Str(String),
    Array(Vec<JsonValue>),
    /// The members of an object, in order; their names are distinct.
    Object(Vec<(String, JsonValue)>),
}

/// The value of the first member of `members` named `key`, if any.
pub open spec fn member(members: Seq<(String, JsonValue)>, key: Seq<char>) -> Option<JsonValue>
    decreases members.len(),
{
    if members.len() == 0 {
        None
    } else if members[0].0@ == key {
        Some(members[0].1)
    } else {
        member(members.drop_first(), key)
    }
}

impl JsonValue {
    /// The member `key` of an object; `None` for a missing member or a value
    /// that is no object.
    pub open spec fn spec_get(self, key: Seq<char>) -> Option<JsonValue> {
        match self {
            JsonValue::Object(members) => member(members@, key),
            _ => None,
        }
    }

    /// The text of a string.
    pub open spec fn spec_as_str(self) -> Option<String> {
        match self {
            JsonValue::Str(s) => Some(s),
            _ => None,
        }
    }

    /// The text of a number.
    pub open spec fn spec_as_number(self) -> Option<String> {
        match self {
            JsonValue::Number(s) => Some(s),
            _ => None,
        }
    }

    /// The elements of an array.
    pub open spec fn spec_as_array(self) -> Option<Seq<JsonValue>> {
        match self {
            JsonValue::Array(items) => Some(items@),
            _ => None,
        }
    }

    /// The member `key` of an object; `None` for a missing member or a value
    /// that is no object.
    pub fn get(&self, key: &str) -> (r: Option<&JsonValue>)
        ensures
            r == match self.spec_get(key@) {
                Some(v) => Some(&v),
                None => None::<&JsonValue>,
            },
    {
        match self {
            JsonValue::Object(members) => {
                let name = String::from_str(key);
                let mut i: usize = 0;
                assert(members@.skip(0) =~= members@);
                while i < members.len()
                    invariant
                        i <= members@.len(),
                        member(members@, name@) == member(members@.skip(i as int), name@),
                        self.spec_get(key@) == member(members@, name@),
                    decreases members@.len() - i,
                {
                    proof {
                        assert(members@.skip(i as int).drop_first() =~= members@.skip(i + 1));
                    }
                    if members[i].0 == name {
                        return Some(&members[i].1);
                    }
                    i = i + 1;
                }
                None
            },
            _ => None,
        }
    }

    /// The text of a string.
    pub fn as_str(&self) -> (r: Option<&String>)
        ensures
            r == match self.spec_as_str() {
                Some(s) => Some(&s),
                None => None::<&String>,
            },
    {
        match self {
            JsonValue::Str(s) => Some(s),
            _ => None,
        }
    }

    /// The text of a number.
    pub fn as_number(&self) -> (r: Option<&String>)
        ensures
            r == match self.spec_as_number() {
                Some(s) => Some(&s),
                None => None::<&String>,
            },
    {
        match self {
            JsonValue::Number(s) => Some(s),
            _ => None,
        }
    }

    /// The elements of an array.
    pub fn as_array(&self) -> (r: Option<&Vec<JsonValue>>)
        ensures
            r matches Some(items) ==> self.spec_as_array() == Some(items@),
            r is None ==> self.spec_as_array() is None,
    {
        match self {
            JsonValue::Array(items) => Some(items),
            _ => None,
        }
    }

    /// Whether the value is the string `text`.
    pub fn is_str(&self, text: &str) -> (r: bool)
        ensures
            r == (self.spec_as_str() matches Some(s) && s@ == text@),
    {
        match self {
            JsonValue::Str(s) => *s == String::from_str(text),
            _ => false,
        }
    }
}

/// Whether the member `key` of `v` is the string `text`.
pub open spec fn member_is_str(v: JsonValue, key: Seq<char>, text: Seq<char>) -> bool {
    v.spec_get(key) matches Some(m) && m.spec_as_str() matches Some(s) && s@ == text
}

} // verus!
