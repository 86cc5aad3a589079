//! Structured Tool arguments: a JSON value as plain data, so that argument controls and
//! capability binding can be verified over it.
use vstd::prelude::*;

verus! {

/// A JSON document. Object members keep their declaration order, and a later member with the
/// same name replaces an earlier one, as in a JSON object map.
#[derive(Debug, PartialEq, Eq)]
pub enum JsonValue {
    Null,
    Bool(bool),
    Number(i64),
    /// A number that is not an `i64` (a fraction, an exponent, or an integer beyond the range
    /// of `i64`), as its JSON text.
    Decimal(String),
    String(String),
    Array(Vec<JsonValue>),
    Object(Vec<(String, JsonValue)>),
}

/// The value that `key` maps to in a member list: the last member with that name.
pub open spec fn member_value(fields: Seq<(String, JsonValue)>, key: Seq<char>) -> Option<JsonValue>
    decreases fields.len(),
{
    if fields.len() == 0 {
        None
    } else if fields.last().0@ == key {
        Some(fields.last().1)
    } else {
        member_value(fields.drop_last(), key)
    }
}

/// The member `key` of an object, if `v` is an object that has it.
pub open spec fn json_get(v: JsonValue, key: Seq<char>) -> Option<JsonValue> {
    match v {
        JsonValue::Object(fields) => member_value(fields@, key),
        _ => None,
    }
}

/// An object member that is present and not `null`.
pub open spec fn json_has_value(v: JsonValue, key: Seq<char>) -> bool {
    json_get(v, key) matches Some(x) && !(x is Null)
}

impl JsonValue {
    /// Whether this value is a JSON object.
    pub fn is_object(&self) -> (r: bool)
        ensures
            r == self is Object,
    {
        match self {
            JsonValue::Object(_) => true,
            _ => false,
        }
    }

    /// Whether this object has member `key` with a non-null value.
    pub fn has_value(&self, key: &String) -> (r: bool)
        ensures
            r == json_has_value(*self, key@),
    {
        match self {
            JsonValue::Object(fields) => {
                let mut i = fields.len();
                assert(fields@.take(i as int) == fields@);
                while i > 0
                    invariant
                        *self == JsonValue::Object(*fields),
                        i <= fields@.len(),
                        member_value(fields@, key@) == member_value(fields@.take(i as int), key@),
                    decreases i,
                {
                    let idx = i - 1;
                    assert(fields@.take(i as int).drop_last() == fields@.take(idx as int));
                    assert(fields@.take(i as int).last() == fields@[idx as int]);
                    if fields[idx].0 == *key {
                        assert(fields@.take(i as int).len() > 0);
                        assert(member_value(fields@.take(i as int), key@) == Some(
                            fields@[idx as int].1,
                        ));
                        let value = &fields[idx].1;
                        let present = match value {
                            JsonValue::Null => false,
                            _ => true,
                        };
                        assert(present == !(fields@[idx as int].1 is Null));
                        return present;
                    }
                    i = idx;
                }
                false
            },
            _ => false,
        }
    }
}

/// The value that `key` maps to in a member list: the last member with that name.
pub fn member<'a>(fields: &'a Vec<(String, JsonValue)>, key: &str) -> (r: Option<&'a JsonValue>)
    ensures
        match member_value(fields@, key@) {
            None => r is None,
            Some(v) => r matches Some(x) && *x == v,
        },
{
    let mut i = fields.len();
    assert(fields@.take(i as int) == fields@);
    while i > 0
        invariant
            i <= fields@.len(),
            member_value(fields@, key@) == member_value(fields@.take(i as int), key@),
        decreases i,
    {
        let idx = i - 1;
        assert(fields@.take(i as int).drop_last() == fields@.take(idx as int));
        assert(fields@.take(i as int).last() == fields@[idx as int]);
        if crate::text::str_eq(fields[idx].0.as_str(), key) {
            return Some(&fields[idx].1);
        }
        i = idx;
    }
    None
}

} // verus!
