//! A JSON document, as the HuggingFace responses are read: objects, arrays,
//! strings, booleans, null, and numbers (kept as their text, plus their
//! value when it is a non-negative integer that fits a `u64`).

use vstd::prelude::*;

verus! {

/// A JSON number: its text, and its value when that is an integer in
/// `0..=u64::MAX`.
pub struct JsonNumber {
    pub as_u64: Option<u64>,
    pub text: String,
}

/// A JSON value. Object members keep their order; keys are unique.
pub enum JsonValue {
    Null,
    Bool(bool),
    Number(JsonNumber),
    Str(String),
    Array(Vec<JsonValue>),
    Object(Vec<(String, JsonValue)>),
}

/// The member named `key` (the first one, if a key repeats).
pub open spec fn member(entries: Seq<(String, JsonValue)>, key: Seq<char>) -> Option<JsonValue>
    decreases entries.len(),
{
    if entries.len() == 0 {
        None
    } else if entries[0].0@ == key {
        Some(entries[0].1)
    } else {
        member(entries.drop_first(), key)
    }
}

/// `value[key]`: the member of an object; `None` for a missing key or a
/// value that is not an object.
pub open spec fn spec_get(v: JsonValue, key: Seq<char>) -> Option<JsonValue> {
    match v {
        JsonValue::Object(entries) => member(entries@, key),
        _ => None,
    }
}

/// The value behind an optional reference.
pub open spec fn deref_opt(v: Option<&JsonValue>) -> Option<JsonValue> {
    match v {
        Some(x) => Some(*x),
        None => None,
    }
}

/// The text of a string value.
pub open spec fn spec_as_str(v: Option<JsonValue>) -> Option<Seq<char>> {
    match v {
        Some(JsonValue::Str(s)) => Some(s@),
        _ => None,
    }
}

/// The value of a non-negative integer number.
pub open spec fn spec_as_u64(v: Option<JsonValue>) -> Option<u64> {
    match v {
        Some(JsonValue::Number(n)) => n.as_u64,
        _ => None,
    }
}

/// The text of a number.
pub open spec fn spec_number_text(v: Option<JsonValue>) -> Option<Seq<char>> {
    match v {
        Some(JsonValue::Number(n)) => Some(n.text@),
        _ => None,
    }
}

proof fn lemma_member_step(entries: Seq<(String, JsonValue)>, key: Seq<char>, i: int)
    requires
        0 <= i < entries.len(),
        forall|k: int| 0 <= k < i ==> entries[k].0@ != key,
    ensures
        member(entries, key) == (if entries[i].0@ == key {
            Some(entries[i].1)
        } else {
            member(entries.subrange(i + 1, entries.len() as int), key)
        }),
    decreases i,
{
    if i > 0 {
        lemma_member_step(entries.drop_first(), key, i - 1);
        assert(entries.drop_first().subrange(i, entries.len() - 1) =~= entries.subrange(i + 1, entries.len() as int));
    } else {
        assert(entries.drop_first() =~= entries.subrange(1, entries.len() as int));
    }
}

proof fn lemma_member_absent(entries: Seq<(String, JsonValue)>, key: Seq<char>)
    requires
        forall|k: int| 0 <= k < entries.len() ==> entries[k].0@ != key,
    ensures
        member(entries, key) is None,
    decreases entries.len(),
{
    if entries.len() > 0 {
        lemma_member_absent(entries.drop_first(), key);
    }
}

impl JsonValue {
    /// `value[key]` (see [`spec_get`]).
    pub fn get(&self, key: &str) -> (r: Option<&JsonValue>)
        ensures
            match (r, spec_get(*self, key@)) {
                (Some(v), Some(sv)) => *v == sv,
                (None, None) => true,
                _ => false,
            },
    {
        match self {
            JsonValue::Object(entries) => {
                let k = String::from_str(key);
                let mut i: usize = 0;
                while i < entries.len()
                    invariant
                        spec_get(*self, key@) == member(entries@, key@),
                        k@ == key@,
                        i <= entries@.len(),
                        forall|j: int| 0 <= j < i ==> entries@[j].0@ != key@,
                    decreases entries@.len() - i,
                {
                    proof {
                        lemma_member_step(entries@, key@, i as int);
                    }
                    if entries[i].0 == k {
                        let found = &entries[i].1;
                        assert(member(entries@, key@) == Some(*found));
                        return Some(found);
                    }
                    i = i + 1;
                }
                proof {
                    lemma_member_absent(entries@, key@);
                }
                None
            },
            _ => None,
        }
    }
}

/// The text of a string value (`Value::as_str`).
pub fn as_str(v: Option<&JsonValue>) -> (r: Option<&String>)
    ensures
        match r {
            Some(s) => spec_as_str(deref_opt(v)) == Some(s@),
            None => spec_as_str(deref_opt(v)) is None,
        },
{
    match v {
        Some(JsonValue::Str(s)) => Some(s),
        _ => None,
    }
}

/// The value of a non-negative integer (`Value::as_u64`).
pub fn as_u64(v: Option<&JsonValue>) -> (r: Option<u64>)
    ensures
        r == spec_as_u64(deref_opt(v)),
{
    match v {
        Some(JsonValue::Number(n)) => n.as_u64,
        _ => None,
    }
}

/// The text of a number.
pub fn number_text(v: Option<&JsonValue>) -> (r: Option<String>)
    ensures
        r.deep_view() == spec_number_text(deref_opt(v)),
{
    match v {
        Some(JsonValue::Number(n)) => Some(n.text.clone()),
        _ => None,
    }
}

} // verus!
