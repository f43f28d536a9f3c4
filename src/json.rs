//! A parsed JSON document, as plain values.

use vstd::prelude::*;

verus! {

/// One JSON value.
///
/// A number is kept as its value when it is a non-negative integer that fits
/// in 64 bits, and as `None` otherwise (negative or fractional): no field that
/// this library reads takes any other number.
#[derive(Debug)]
pub enum JsonValue {
    Null,
    Bool(bool),
    Number(Option<u64>),
    Str(String),
    Array(Vec<JsonValue>),
    Object(Vec<(String, JsonValue)>),
}

/// The value of the first entry named `key`, if any.
pub open spec fn entry_value(entries: Seq<(String, JsonValue)>, key: Seq<char>) -> Option<
    JsonValue,
>
    decreases entries.len(),
{
    if entries.len() == 0 {
        None
    } else if entries[0].0@ == key {
        Some(entries[0].1)
    } else {
        entry_value(entries.drop_first(), key)
    }
}

/// The member `key` of an object; `None` for a missing member or a value that
/// is no object.
pub open spec fn json_field(v: JsonValue, key: Seq<char>) -> Option<JsonValue> {
    match v {
        JsonValue::Object(entries) => entry_value(entries@, key),
        _ => None,
    }
}

impl JsonValue {
    /// Looks up the member `key` of an object.
    pub fn field(&self, key: &str) -> (r: Option<&JsonValue>)
        ensures
            match r {
                Some(f) => json_field(*self, key@) == Some(*f),
                None => json_field(*self, key@) is None,
            },
    {
        match self {
            JsonValue::Object(entries) => {
                let name = String::from_str(key);
                let mut i: usize = 0;
                assert(entries@.subrange(0, entries@.len() as int) =~= entries@);
                while i < entries.len()
                    invariant
                        i <= entries@.len(),
                        name@ == key@,
                        json_field(*self, key@) == entry_value(entries@, key@),
                        entry_value(entries@, key@) == entry_value(
                            entries@.subrange(i as int, entries@.len() as int),
                            key@,
                        ),
                    decreases entries@.len() - i,
                {
                    let ghost rest = entries@.subrange(i as int, entries@.len() as int);
                    assert(rest.drop_first() =~= entries@.subrange(
                        i + 1,
                        entries@.len() as int,
                    ));
                    assert(rest[0] == entries@[i as int]);
                    if entries[i].0 == name {
                        assert(rest[0].0@ == key@);
                        return Some(&entries[i].1);
                    }
                    i = i + 1;
                }
                None
            },
            _ => None,
        }
    }
}

} // verus!
