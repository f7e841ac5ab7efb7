//! A JSON value as the library reads it. Callers build it from whatever
//! parser they use; number and container texts are the compact JSON
//! rendering of the value, as the parser prints it.

use vstd::prelude::*;

verus! {

/// A JSON number: its integer readings (when it has them) and its text.
#[derive(Debug, Clone)]
pub struct JsonNumber {
    /// The value as an unsigned integer, when it is one.
    pub as_u64: Option<u64>,
    /// The value as a signed integer, when it is one.
    pub as_i64: Option<i64>,
    /// The number as printed.
    pub text: String,
}

/// A JSON value. Object entries keep the order the parser gives (serde_json
/// sorts keys).
#[derive(Debug)]
pub enum Json {
    Null,
    Bool(bool),
    Number(JsonNumber),
    Str(String),
    Array { items: Vec<Json>, text: String },
    Object { entries: Vec<(String, Json)>, text: String },
}

} // verus!

verus! {

/// The value of the first entry named `key`.
pub open spec fn entry_value(entries: Seq<(String, Json)>, key: Seq<char>) -> Option<Json>
    decreases entries.len(),
{
    if entries.len() == 0 {
        None
    } else if entries[0].0@ == key {
        Some(entries[0].1)
    } else {
        entry_value(entries.drop_first(), key)
    }
}

/// `value.get(key)`: the member of an object, `None` for anything else.
pub open spec fn json_get(j: Json, key: Seq<char>) -> Option<Json> {
    match j {
        Json::Object { entries, .. } => entry_value(entries@, key),
        _ => None,
    }
}

/// `Value::as_u64` of an optional member.
pub open spec fn json_u64(j: Option<Json>) -> Option<u64> {
    match j {
        Some(Json::Number(n)) => n.as_u64,
        _ => None,
    }
}

/// `Value::as_i64` of an optional member.
pub open spec fn json_i64(j: Option<Json>) -> Option<i64> {
    match j {
        Some(Json::Number(n)) => n.as_i64,
        _ => None,
    }
}

/// `Value::as_bool` of an optional member.
pub open spec fn json_bool(j: Option<Json>) -> Option<bool> {
    match j {
        Some(Json::Bool(b)) => Some(b),
        _ => None,
    }
}

/// `Value::as_str` of an optional member.
pub open spec fn json_str(j: Option<Json>) -> Option<Seq<char>> {
    match j {
        Some(Json::Str(s)) => Some(s@),
        _ => None,
    }
}

/// The compact JSON text of a value (`Value::to_string`).
pub open spec fn json_text(j: Json) -> Seq<char> {
    match j {
        Json::Null => "null"@,
        Json::Bool(b) => if b {
            "true"@
        } else {
            "false"@
        },
        Json::Number(n) => n.text@,
        Json::Str(s) => crate::receiver::json_string(s@),
        Json::Array { text, .. } => text@,
        Json::Object { text, .. } => text@,
    }
}

impl Json {
    /// The member `key` of an object.
    pub fn get(&self, key: &str) -> (r: Option<&Json>)
        ensures
            match r {
                Some(v) => json_get(*self, key@) == Some(*v),
                None => json_get(*self, key@) is None,
            },
    {
        match self {
            Json::Object { entries, .. } => {
                let mut i: usize = 0;
                assert(entries@.skip(0) =~= entries@);
                while i < entries.len()
                    invariant
                        i <= entries.len(),
                        json_get(*self, key@) == entry_value(entries@, key@),
                        entry_value(entries@, key@) == entry_value(entries@.skip(i as int), key@),
                    decreases entries.len() - i,
                {
                    assert(entries@.skip(i as int)[0] == entries@[i as int]);
                    assert(entries@.skip(i as int).drop_first() =~= entries@.skip(i + 1));
                    if crate::text::str_eq(entries[i].0.as_str(), key) {
                        return Some(&entries[i].1);
                    }
                    i += 1;
                }
                None
            },
            _ => None,
        }
    }

    pub fn as_u64(&self) -> (r: Option<u64>)
        ensures
            r == json_u64(Some(*self)),
    {
        match self {
            Json::Number(n) => n.as_u64,
            _ => None,
        }
    }

    pub fn as_i64(&self) -> (r: Option<i64>)
        ensures
            r == json_i64(Some(*self)),
    {
        match self {
            Json::Number(n) => n.as_i64,
            _ => None,
        }
    }

    pub fn as_bool(&self) -> (r: Option<bool>)
        ensures
            r == json_bool(Some(*self)),
    {
        match self {
            Json::Bool(b) => Some(*b),
            _ => None,
        }
    }

    pub fn as_str(&self) -> (r: Option<&str>)
        ensures
            match r {
                Some(s) => json_str(Some(*self)) == Some(s@),
                None => json_str(Some(*self)) is None,
            },
    {
        match self {
            Json::Str(s) => Some(s.as_str()),
            _ => None,
        }
    }

    pub fn is_null(&self) -> (r: bool)
        ensures
            r == (*self is Null),
    {
        match self {
            Json::Null => true,
            _ => false,
        }
    }

    /// The compact JSON text of the value.
    pub fn to_text(&self) -> (r: String)
        ensures
            r@ == json_text(*self),
    {
        match self {
            Json::Null => String::from_str("null"),
            Json::Bool(b) => if *b {
                String::from_str("true")
            } else {
                String::from_str("false")
            },
            Json::Number(n) => n.text.clone(),
            Json::Str(s) => {
                let mut out = String::new();
                crate::receiver::push_json_string(&mut out, s.as_str());
                proof {
                    reveal_strlit("");
                }
                assert(out@ =~= crate::receiver::json_string(s@));
                out
            },
            Json::Array { text, .. } => text.clone(),
            Json::Object { text, .. } => text.clone(),
        }
    }
}

impl Json {
    /// The member `key` of an object, taken out of it.
    pub fn into_member(self, key: &str) -> (r: Option<Json>)
        ensures
            r == json_get(self, key@),
    {
        let ghost orig = self;
        match self {
            Json::Object { entries, .. } => {
                let mut entries = entries;
                let ghost es = entries@;
                let mut i: usize = 0;
                assert(es.skip(0) =~= es);
                while i < entries.len()
                    invariant
                        i <= entries.len(),
                        entries@ == es,
                        orig == self,
                        json_get(orig, key@) == entry_value(es, key@),
                        entry_value(es, key@) == entry_value(es.skip(i as int), key@),
                    decreases entries.len() - i,
                {
                    assert(es.skip(i as int)[0] == es[i as int]);
                    assert(es.skip(i as int).drop_first() =~= es.skip(i + 1));
                    if crate::text::str_eq(entries[i].0.as_str(), key) {
                        assert(entry_value(es.skip(i as int), key@) == Some(es[i as int].1));
                        let e = entries.remove(i);
                        assert(e == es[i as int]);
                        return Some(e.1);
                    }
                    i += 1;
                }
                None
            },
            _ => None,
        }
    }

    /// The items of an array, taken out of it.
    pub fn into_items(self) -> (r: Option<Vec<Json>>)
        ensures
            match self {
                Json::Array { items, .. } => r matches Some(v) && v@ == items@,
                _ => r is None,
            },
    {
        match self {
            Json::Array { items, .. } => Some(items),
            _ => None,
        }
    }
}

} // verus!
