//! A JSON value as the library reads it: what yt-dlp and the web services
//! answer, after the application has parsed it.

use vstd::prelude::*;

use crate::text::str_eq;

verus! {

/// A JSON number by the readings the logic makes of it. Reading it as a
/// float stays with the caller, who hands over what the logic needs.
pub struct JsonNumber {
    /// The number as JSON text.
    pub text: String,
    /// Its value when it is an integer that fits `i64`.
    pub int: Option<i64>,
    /// Its value when it is an integer that fits `u64`.
    pub uint: Option<u64>,
    /// Its value as a float cut toward zero to an integer (saturating at the
    /// ends of `i64`).
    pub truncated: i64,
    /// Whether it is greater than zero as a float.
    pub positive: bool,
}

pub enum Json {
    Null,
    Bool(bool),
    Number(JsonNumber),
    Str(String),
    Array(Vec<Json>),
    /// Members in document order; a key occurs at most once.
    Object(Vec<(String, Json)>),
}

/// The value of the first member named `key` among `fields`.
pub open spec fn member(fields: Seq<(String, Json)>, key: Seq<char>) -> Option<Json>
    decreases fields.len(),
{
    if fields.len() == 0 {
        None
    } else if fields[0].0@ == key {
        Some(fields[0].1)
    } else {
        member(fields.drop_first(), key)
    }
}

/// `j[key]` for an object; nothing for anything else.
pub open spec fn get(j: Json, key: Seq<char>) -> Option<Json> {
    match j {
        Json::Object(fields) => member(fields@, key),
        _ => None,
    }
}

pub open spec fn str_of(j: Option<Json>) -> Option<Seq<char>> {
    match j {
        Some(Json::Str(s)) => Some(s@),
        _ => None,
    }
}

pub open spec fn int_of(j: Option<Json>) -> Option<int> {
    match j {
        Some(Json::Number(n)) => match n.int {
            Some(v) => Some(v as int),
            None => None,
        },
        _ => None,
    }
}

pub open spec fn uint_of(j: Option<Json>) -> Option<int> {
    match j {
        Some(Json::Number(n)) => match n.uint {
            Some(v) => Some(v as int),
            None => None,
        },
        _ => None,
    }
}

/// The integer reading of a number, else its float reading cut to an
/// integer (`as_i64().or_else(|| as_f64() as i64)`).
pub open spec fn whole_of(j: Option<Json>) -> Option<int> {
    match j {
        Some(Json::Number(n)) => match n.int {
            Some(v) => Some(v as int),
            None => Some(n.truncated as int),
        },
        _ => None,
    }
}

pub open spec fn array_of(j: Option<Json>) -> Option<Seq<Json>> {
    match j {
        Some(Json::Array(items)) => Some(items@),
        _ => None,
    }
}

/// The text of a number greater than zero.
pub open spec fn positive_text_of(j: Option<Json>) -> Option<Seq<char>> {
    match j {
        Some(Json::Number(n)) => if n.positive {
            Some(n.text@)
        } else {
            None
        },
        _ => None,
    }
}

impl Json {
    /// The member `key` of an object.
    pub fn get(&self, key: &str) -> (r: Option<&Json>)
        ensures
            match r {
                Some(v) => get(*self, key@) == Some(*v),
                None => get(*self, key@) is None,
            },
    {
        match self {
            Json::Object(fields) => {
                let n = fields.len();
                let mut i: usize = 0;
                assert(fields@.skip(0) =~= fields@);
                while i < n
                    invariant
                        n == fields@.len(),
                        i <= n,
                        member(fields@, key@) == member(fields@.skip(i as int), key@),
                        get(*self, key@) == member(fields@, key@),
                    decreases n - i,
                {
                    proof {
                        assert(fields@.skip(i as int).drop_first() =~= fields@.skip(i + 1));
                    }
                    if str_eq(fields[i].0.as_str(), key) {
                        assert(fields@.skip(i as int)[0] == fields@[i as int]);
                        assert(fields@.skip(i as int).len() > 0);
                        assert(member(fields@.skip(i as int), key@) == Some(fields@[i as int].1));
                        return Some(&fields[i].1);
                    }
                    i += 1;
                }
                None
            },
            _ => None,
        }
    }

    pub fn as_str(&self) -> (r: Option<&str>)
        ensures
            match r {
                Some(s) => str_of(Some(*self)) == Some(s@),
                None => str_of(Some(*self)) is None,
            },
    {
        match self {
            Json::Str(s) => Some(s.as_str()),
            _ => None,
        }
    }

    pub fn as_i64(&self) -> (r: Option<i64>)
        ensures
            match r {
                Some(v) => int_of(Some(*self)) == Some(v as int),
                None => int_of(Some(*self)) is None,
            },
    {
        match self {
            Json::Number(n) => n.int,
            _ => None,
        }
    }

    pub fn as_u64(&self) -> (r: Option<u64>)
        ensures
            match r {
                Some(v) => uint_of(Some(*self)) == Some(v as int),
                None => uint_of(Some(*self)) is None,
            },
    {
        match self {
            Json::Number(n) => n.uint,
            _ => None,
        }
    }

    /// The integer reading, else the float reading cut to an integer.
    pub fn as_whole(&self) -> (r: Option<i64>)
        ensures
            match r {
                Some(v) => whole_of(Some(*self)) == Some(v as int),
                None => whole_of(Some(*self)) is None,
            },
    {
        match self {
            Json::Number(n) => match n.int {
                Some(v) => Some(v),
                None => Some(n.truncated),
            },
            _ => None,
        }
    }

    pub fn as_array(&self) -> (r: Option<&Vec<Json>>)
        ensures
            match r {
                Some(v) => array_of(Some(*self)) == Some(v@),
                None => array_of(Some(*self)) is None,
            },
    {
        match self {
            Json::Array(items) => Some(items),
            _ => None,
        }
    }

    /// The text of a number greater than zero.
    pub fn positive_text(&self) -> (r: Option<&str>)
        ensures
            match r {
                Some(s) => positive_text_of(Some(*self)) == Some(s@),
                None => positive_text_of(Some(*self)) is None,
            },
    {
        match self {
            Json::Number(n) => if n.positive {
                Some(n.text.as_str())
            } else {
                None
            },
            _ => None,
        }
    }
}

/// `j[key]` as text.
pub fn get_str<'a>(j: &'a Json, key: &str) -> (r: Option<&'a str>)
    ensures
        match r {
            Some(s) => str_of(get(*j, key@)) == Some(s@),
            None => str_of(get(*j, key@)) is None,
        },
{
    match j.get(key) {
        Some(v) => v.as_str(),
        None => None,
    }
}

/// `j[key]` as an `i64` integer.
pub fn get_i64(j: &Json, key: &str) -> (r: Option<i64>)
    ensures
        match r {
            Some(v) => int_of(get(*j, key@)) == Some(v as int),
            None => int_of(get(*j, key@)) is None,
        },
{
    match j.get(key) {
        Some(v) => v.as_i64(),
        None => None,
    }
}

/// `j[key]` as a whole number (integer, else a float cut to an integer).
pub fn get_whole(j: &Json, key: &str) -> (r: Option<i64>)
    ensures
        match r {
            Some(v) => whole_of(get(*j, key@)) == Some(v as int),
            None => whole_of(get(*j, key@)) is None,
        },
{
    match j.get(key) {
        Some(v) => v.as_whole(),
        None => None,
    }
}

/// `j[key]` as an array.
pub fn get_array<'a>(j: &'a Json, key: &str) -> (r: Option<&'a Vec<Json>>)
    ensures
        match r {
            Some(v) => array_of(get(*j, key@)) == Some(v@),
            None => array_of(get(*j, key@)) is None,
        },
{
    match j.get(key) {
        Some(v) => v.as_array(),
        None => None,
    }
}

} // verus!
