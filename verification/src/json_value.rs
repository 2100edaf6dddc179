//! The library's own model of a JSON document.
//!
//! Both schemas the library validates (the switcher document and the usage
//! document) only ever inspect strings, arrays and objects; every other JSON
//! value (null, a boolean, a number) is ruled out by validation, so the model
//! keeps only its kind. The collaborator that reads and writes JSON text
//! converts between its concrete representation and this one.

use vstd::prelude::*;

use crate::text::str_eq;

verus! {

/// A JSON value, as far as this library reads one.
#[derive(Debug, PartialEq)]
pub enum JsonValue {
    /// null, a boolean, or a number: no schema of this library accepts one.
    Other,
    /// A JSON string.
    Text(String),
    /// A JSON array.
    Array(Vec<JsonValue>),
    /// A JSON object: its members in document order. Duplicate keys are kept
    /// as written; `lookup` resolves them in favour of the first occurrence.
    Object(Vec<(String, JsonValue)>),
}

/// The value of the first member of `members` whose key reads `key`.
pub open spec fn spec_lookup(members: Seq<(String, JsonValue)>, key: Seq<char>) -> Option<
    JsonValue,
>
    decreases members.len(),
{
    if members.len() == 0 {
        None
    } else if members[0].0@ == key {
        Some(members[0].1)
    } else {
        spec_lookup(members.drop_first(), key)
    }
}

impl JsonValue {
    /// Whether this value is an object.
    pub open spec fn is_object(self) -> bool {
        self matches JsonValue::Object(_)
    }

    /// The members of this value, which must be an object.
    pub open spec fn members(self) -> Seq<(String, JsonValue)>
        recommends
            self.is_object(),
    {
        match self {
            JsonValue::Object(members) => members@,
            _ => Seq::empty(),
        }
    }

    /// Look a key up among the members of an object, first occurrence first.
    pub fn lookup<'a>(members: &'a Vec<(String, JsonValue)>, key: &str) -> (r: Option<
        &'a JsonValue,
    >)
        ensures
            match r {
                Some(v) => spec_lookup(members@, key@) == Some(*v),
                None => spec_lookup(members@, key@) is None,
            },
    {
        let n: usize = members.len();
        let mut i: usize = 0;
        proof {
            assert(members@.skip(0) =~= members@);
        }
        while i < n
            invariant
                i <= n,
                n == members@.len(),
                spec_lookup(members@, key@) == spec_lookup(members@.skip(i as int), key@),
            decreases n - i,
        {
            proof {
                assert(members@.skip(i as int)[0] == members@[i as int]);
            }
            if str_eq(members[i].0.as_str(), key) {
                return Some(&members[i].1);
            }
            proof {
                assert(members@.skip(i as int).drop_first() =~= members@.skip(i as int + 1));
            }
            i = i + 1;
        }
        proof {
            assert(members@.skip(n as int).len() == 0);
        }
        None
    }
}

} // verus!
