use vstd::prelude::*;

use crate::text::{owned, str_eq};

verus! {

/// A JSON number as the pipeline files carry it: its value as an unsigned
/// integer when it is one, the decimal text of its value as a float (as `{}`
/// prints an `f64`), and the text of that float rounded to a whole number
/// (as `{:.0}` prints it).
pub struct JsonNumber {
    pub as_u64: Option<u64>,
    pub float_text: String,
    pub whole_text: String,
}

/// A parsed JSON document. Object entries keep the order in which the
/// document's map yields them, and no key occurs twice in one object. Arrays
/// and objects carry their compact JSON text.
pub enum JsonValue {
    Null,
    Bool(bool),
    Number(JsonNumber),
    Str(String),
    Array { items: Vec<JsonValue>, text: String },
    Object { entries: Vec<(String, JsonValue)>, text: String },
}

/// The value under `key` among `entries`: the first entry with that key.
pub open spec fn lookup(entries: Seq<(String, JsonValue)>, key: Seq<char>) -> Option<JsonValue>
    decreases entries.len(),
{
    if entries.len() == 0 {
        None
    } else if entries[0].0@ == key {
        Some(entries[0].1)
    } else {
        lookup(entries.drop_first(), key)
    }
}

/// `value.get(key)`: the member of an object, or nothing for any other value.
pub open spec fn member(value: JsonValue, key: Seq<char>) -> Option<JsonValue> {
    match value {
        JsonValue::Object { entries, .. } => lookup(entries@, key),
        _ => None,
    }
}

/// The string held by a JSON string value.
pub open spec fn as_str(value: Option<JsonValue>) -> Option<Seq<char>> {
    match value {
        Some(JsonValue::Str(s)) => Some(s@),
        _ => None,
    }
}

/// The string member `key`, or the empty string when there is none.
pub open spec fn str_member(value: JsonValue, key: Seq<char>) -> Seq<char> {
    match as_str(member(value, key)) {
        Some(s) => s,
        None => Seq::empty(),
    }
}

/// The unsigned integer held by a JSON number value.
pub open spec fn as_u64(value: Option<JsonValue>) -> Option<u64> {
    match value {
        Some(JsonValue::Number(n)) => n.as_u64,
        _ => None,
    }
}

/// The items of a JSON array value.
pub open spec fn as_array(value: Option<JsonValue>) -> Option<Seq<JsonValue>> {
    match value {
        Some(JsonValue::Array { items, .. }) => Some(items@),
        _ => None,
    }
}

/// The entries of a JSON object value.
pub open spec fn as_object(value: Option<JsonValue>) -> Option<Seq<(String, JsonValue)>> {
    match value {
        Some(JsonValue::Object { entries, .. }) => Some(entries@),
        _ => None,
    }
}

/// The string items of a sequence of values, in order, others skipped.
pub open spec fn string_items(items: Seq<JsonValue>) -> Seq<Seq<char>>
    decreases items.len(),
{
    if items.len() == 0 {
        Seq::empty()
    } else {
        let rest = string_items(items.drop_last());
        match items.last() {
            JsonValue::Str(s) => rest.push(s@),
            _ => rest,
        }
    }
}

/// The string items of the array member `key`, or none when it is no array.
pub open spec fn string_list_member(value: JsonValue, key: Seq<char>) -> Seq<Seq<char>> {
    match as_array(member(value, key)) {
        Some(items) => string_items(items),
        None => Seq::empty(),
    }
}

/// The views of a vector of strings.
pub open spec fn views(v: Seq<String>) -> Seq<Seq<char>> {
    v.map_values(|s: String| s@)
}

impl JsonValue {
    /// The member `key` of an object; nothing for another value or a missing key.
    pub fn get(&self, key: &str) -> (r: Option<&JsonValue>)
        ensures
            match r {
                Some(v) => member(*self, key@) == Some(*v),
                None => member(*self, key@).is_none(),
            },
    {
        match self {
            JsonValue::Object { entries, .. } => {
                let mut i: usize = 0;
                assert(entries@.subrange(0, entries@.len() as int) =~= entries@);
                while i < entries.len()
                    invariant
                        i <= entries@.len(),
                        member(*self, key@) == lookup(entries@, key@),
                        lookup(entries@, key@) == lookup(entries@.subrange(i as int, entries@.len() as int), key@),
                    decreases entries@.len() - i,
                {
                    let ghost rest = entries@.subrange(i as int, entries@.len() as int);
                    assert(rest.drop_first() =~= entries@.subrange(i + 1, entries@.len() as int));
                    assert(rest[0] == entries@[i as int]);
                    if str_eq(entries[i].0.as_str(), key) {
                        assert(lookup(rest, key@) == Some(entries@[i as int].1));
                        return Some(&entries[i].1);
                    }
                    i += 1;
                }
                None
            },
            _ => None,
        }
    }

    /// The string of a JSON string value.
    pub fn as_str(&self) -> (r: Option<&str>)
        ensures
            match r {
                Some(s) => as_str(Some(*self)) == Some(s@),
                None => as_str(Some(*self)).is_none(),
            },
    {
        match self {
            JsonValue::Str(s) => Some(s.as_str()),
            _ => None,
        }
    }
}

/// `value.get(key).and_then(as_str).unwrap_or("").to_string()`.
pub fn str_member_of(value: &JsonValue, key: &str) -> (r: String)
    ensures
        r@ == str_member(*value, key@),
{
    match value.get(key) {
        Some(v) => match v.as_str() {
            Some(s) => owned(s),
            None => String::new(),
        },
        None => String::new(),
    }
}


/// The string items of an array value, in order; none for another value.
pub fn string_items_of(value: Option<&JsonValue>) -> (r: Vec<String>)
    ensures
        views(r@) == match value {
            Some(v) => match as_array(Some(*v)) {
                Some(items) => string_items(items),
                None => Seq::empty(),
            },
            None => Seq::<Seq<char>>::empty(),
        },
{
    let mut out: Vec<String> = Vec::new();
    match value {
        Some(JsonValue::Array { items, .. }) => {
            let mut i: usize = 0;
            while i < items.len()
                invariant
                    i <= items@.len(),
                    views(out@) == string_items(items@.take(i as int)),
                decreases items@.len() - i,
            {
                assert(items@.take(i + 1).drop_last() =~= items@.take(i as int));
                match &items[i] {
                    JsonValue::Str(s) => {
                        out.push(owned(s.as_str()));
                    },
                    _ => {},
                }
                assert(views(out@) =~= string_items(items@.take(i + 1)));
                i += 1;
            }
            assert(items@.take(items@.len() as int) =~= items@);
        },
        _ => {},
    }
    assert(views(out@) =~= views(out@));
    out
}

/// The string items of the array member `key`.
pub fn string_list_of(value: &JsonValue, key: &str) -> (r: Vec<String>)
    ensures
        views(r@) == string_list_member(*value, key@),
{
    string_items_of(value.get(key))
}


/// The unsigned integer member `key`, or `default` when there is none.
pub open spec fn u64_member_or(value: JsonValue, key: Seq<char>, default: u64) -> u64 {
    match as_u64(member(value, key)) {
        Some(n) => n,
        None => default,
    }
}

/// The boolean member `key`, or `default` when there is none.
pub open spec fn bool_member_or(value: JsonValue, key: Seq<char>, default: bool) -> bool {
    match member(value, key) {
        Some(JsonValue::Bool(b)) => b,
        _ => default,
    }
}

/// The unsigned integer member `key`, or `default`.
pub fn u64_member_of(value: &JsonValue, key: &str, default: u64) -> (r: u64)
    ensures
        r == u64_member_or(*value, key@, default),
{
    match value.get(key) {
        Some(JsonValue::Number(n)) => match n.as_u64 {
            Some(x) => x,
            None => default,
        },
        _ => default,
    }
}

/// The boolean member `key`, or `default`.
pub fn bool_member_of(value: &JsonValue, key: &str, default: bool) -> (r: bool)
    ensures
        r == bool_member_or(*value, key@, default),
{
    match value.get(key) {
        Some(JsonValue::Bool(b)) => *b,
        _ => default,
    }
}

impl JsonNumber {
    /// The number zero.
    pub fn zero() -> (r: Self)
        ensures
            r.as_u64 == Some(0u64),
            r.float_text@ == "0"@,
            r.whole_text@ == "0"@,
    {
        JsonNumber { as_u64: Some(0), float_text: owned("0"), whole_text: owned("0") }
    }

    /// A copy of the number.
    pub fn copy(&self) -> (r: Self)
        ensures
            r.as_u64 == self.as_u64,
            r.float_text@ == self.float_text@,
            r.whole_text@ == self.whole_text@,
    {
        JsonNumber {
            as_u64: self.as_u64,
            float_text: owned(self.float_text.as_str()),
            whole_text: owned(self.whole_text.as_str()),
        }
    }
}

} // verus!
