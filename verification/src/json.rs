//! A JSON document as the planner reads it: objects keep their entries in
//! key order (as `serde_json`'s default map does), and a number carries what
//! is read of it, its value as an `i64` when it has one and as an `f64`.
use vstd::prelude::*;

use crate::proto::Float64;
use crate::text::{owned, str_eq};

verus! {

/// A JSON number: `int` is its value when it is an integer that fits an
/// `i64` (what `as_i64` gives), `float` its value as an `f64` (`as_f64`).
pub struct JsonNumber {
    pub int: Option<i64>,
    pub float: Float64,
}

/// A JSON value.
pub enum Json {
    Null,
    Bool(bool),
    Number(JsonNumber),
    Str(String),
    Array(Vec<Json>),
    Object(Vec<(String, Json)>),
}

/// The value under `key` in an object's entries.
pub open spec fn obj_get(o: Seq<(String, Json)>, key: Seq<char>) -> Option<Json>
    decreases o.len(),
{
    if o.len() == 0 {
        None
    } else if o[0].0@ == key {
        Some(o[0].1)
    } else {
        obj_get(o.drop_first(), key)
    }
}

/// The string held by a value, if it is a string.
pub open spec fn str_of(j: Option<Json>) -> Option<Seq<char>> {
    match j {
        Some(Json::Str(s)) => Some(s@),
        _ => None,
    }
}

/// The first of `keys` whose value in the object is a string, and that string.
pub open spec fn get_string(o: Seq<(String, Json)>, keys: Seq<Seq<char>>) -> Option<Seq<char>>
    decreases keys.len(),
{
    if keys.len() == 0 {
        None
    } else {
        match str_of(obj_get(o, keys[0])) {
            Some(s) => Some(s),
            None => get_string(o, keys.drop_first()),
        }
    }
}

/// The value under `key` in an object's entries.
pub fn obj_get_exec<'a>(o: &'a Vec<(String, Json)>, key: &str) -> (r: Option<&'a Json>)
    ensures
        match r {
            Some(v) => obj_get(o@, key@) == Some(*v),
            None => obj_get(o@, key@) is None,
        },
{
    let mut i: usize = 0;
    assert(o@.skip(0) =~= o@);
    while i < o.len()
        invariant
            i <= o.len(),
            obj_get(o@, key@) == obj_get(o@.skip(i as int), key@),
        decreases o.len() - i,
    {
        proof {
            assert(o@.skip(i as int).drop_first() =~= o@.skip(i + 1));
        }
        if str_eq(o[i].0.as_str(), key) {
            return Some(&o[i].1);
        }
        i += 1;
    }
    None
}

/// The string under `key`, if the value there is a string.
pub fn get_str_exec<'a>(o: &'a Vec<(String, Json)>, key: &str) -> (r: Option<&'a String>)
    ensures
        match r {
            Some(s) => str_of(obj_get(o@, key@)) == Some(s@),
            None => str_of(obj_get(o@, key@)) is None,
        },
{
    match obj_get_exec(o, key) {
        Some(Json::Str(s)) => Some(s),
        _ => None,
    }
}

/// The first of two keys whose value is a string.
pub fn get_string2(o: &Vec<(String, Json)>, k1: &str, k2: &str) -> (r: Option<String>)
    ensures
        match r {
            Some(s) => get_string(o@, seq![k1@, k2@]) == Some(s@),
            None => get_string(o@, seq![k1@, k2@]) is None,
        },
{
    proof {
        assert(seq![k1@, k2@].drop_first() =~= seq![k2@]);
        assert(seq![k2@].drop_first() =~= Seq::<Seq<char>>::empty());
        reveal_with_fuel(get_string, 3);
    }
    match get_str_exec(o, k1) {
        Some(s) => Some(owned(s.as_str())),
        None => match get_str_exec(o, k2) {
            Some(s) => Some(owned(s.as_str())),
            None => None,
        },
    }
}

/// The string under one key.
pub fn get_string1(o: &Vec<(String, Json)>, k: &str) -> (r: Option<String>)
    ensures
        match r {
            Some(s) => get_string(o@, seq![k@]) == Some(s@),
            None => get_string(o@, seq![k@]) is None,
        },
{
    proof {
        assert(seq![k@].drop_first() =~= Seq::<Seq<char>>::empty());
        reveal_with_fuel(get_string, 2);
    }
    match get_str_exec(o, k) {
        Some(s) => Some(owned(s.as_str())),
        None => None,
    }
}

} // verus!
