//! The mathematical model of a parsed JSON tree, and the trusted bridge to
//! `serde_json`, which does the parsing. A `serde_json::Value` is opaque to
//! the verifier; the name `jv` stands for the tree it holds, and every
//! accessor wrapper speaks of the same name, so that verified code can walk
//! a parsed tree and reason about what it finds.

use vstd::prelude::*;

verus! {

/// A JSON tree as a mathematical value. Numbers that `serde_json` keeps as
/// integers appear as `Int`; any other number is `NonIntNum` (this crate's
/// logic never reads one).
pub enum Jv {
    Null,
    Bool(bool),
    Int(int),
    NonIntNum,
    Str(Seq<char>),
    Arr(Seq<Jv>),
    Obj(Seq<(Seq<char>, Jv)>),
}

/// First entry of `entries` whose key is `key`, if any.
pub open spec fn lookup_entries(entries: Seq<(Seq<char>, Jv)>, key: Seq<char>) -> Option<Jv>
    decreases entries.len(),
{
    if entries.len() == 0 {
        None
    } else if entries.first().0 == key {
        Some(entries.first().1)
    } else {
        lookup_entries(entries.drop_first(), key)
    }
}

/// Member `key` of `j`, when `j` is an object that has it.
pub open spec fn jv_get(j: Jv, key: Seq<char>) -> Option<Jv> {
    match j {
        Jv::Obj(entries) => lookup_entries(entries, key),
        _ => None,
    }
}

#[verifier::external_type_specification]
#[verifier::external_body]
pub struct ExValue(serde_json::Value);

/// The tree a `serde_json::Value` holds.
pub uninterp spec fn jv(v: serde_json::Value) -> Jv;

/// The tree that parsing a text yields, or `None` when the text is not JSON.
pub uninterp spec fn json_of(s: Seq<char>) -> Option<Jv>;

/// Relies on `serde_json::from_str::<Value>`: whether a text parses, and to
/// what tree, depends on the text alone.
#[verifier::external_body]
pub(crate) fn parse_json_value(s: &str) -> (r: Option<serde_json::Value>)
    ensures
        match r {
            Some(v) => json_of(s@) == Some(jv(v)),
            None => json_of(s@) is None,
        },
{
    serde_json::from_str::<serde_json::Value>(s).ok()
}

/// Relies on `serde_json::Value::get` with a string index: member lookup in
/// an object, `None` on any other kind of value.
#[verifier::external_body]
pub(crate) fn v_get<'a>(v: &'a serde_json::Value, key: &str) -> (r: Option<&'a serde_json::Value>)
    ensures
        match r {
            Some(u) => jv_get(jv(*v), key@) == Some(jv(*u)),
            None => jv_get(jv(*v), key@) is None,
        },
{
    v.get(key)
}

/// Relies on `serde_json::Value::as_str`: the string a `Value::String` holds.
#[verifier::external_body]
pub(crate) fn v_as_str<'a>(v: &'a serde_json::Value) -> (r: Option<&'a str>)
    ensures
        match r {
            Some(s) => jv(*v) == Jv::Str(s@),
            None => !(jv(*v) is Str),
        },
{
    v.as_str()
}

/// Relies on `serde_json::Value::as_array`: the elements a `Value::Array` holds.
#[verifier::external_body]
pub(crate) fn v_as_array<'a>(v: &'a serde_json::Value) -> (r: Option<&'a Vec<serde_json::Value>>)
    ensures
        match r {
            Some(a) => jv(*v) == Jv::Arr(Seq::new(a@.len() as nat, |i: int| jv(a@[i]))),
            None => !(jv(*v) is Arr),
        },
{
    v.as_array()
}

/// Relies on `serde_json::Value::as_i64`: the value of an integer number
/// when it fits in `i64`.
#[verifier::external_body]
pub(crate) fn v_as_i64(v: &serde_json::Value) -> (r: Option<i64>)
    ensures
        match r {
            Some(n) => jv(*v) == Jv::Int(n as int),
            None => match jv(*v) {
                Jv::Int(n) => !(i64::MIN <= n <= i64::MAX),
                _ => true,
            },
        },
{
    v.as_i64()
}

/// Relies on `serde_json::Value::as_u64`: the value of an integer number
/// when it fits in `u64`.
#[verifier::external_body]
pub(crate) fn v_as_u64(v: &serde_json::Value) -> (r: Option<u64>)
    ensures
        match r {
            Some(n) => jv(*v) == Jv::Int(n as int),
            None => match jv(*v) {
                Jv::Int(n) => !(0 <= n <= u64::MAX),
                _ => true,
            },
        },
{
    v.as_u64()
}

/// Relies on `serde_json::Value::is_null`.
#[verifier::external_body]
pub(crate) fn v_is_null(v: &serde_json::Value) -> (r: bool)
    ensures
        r == (jv(*v) is Null),
{
    v.is_null()
}

/// Relies on `serde_json::Value::clone`: an equal tree.
#[verifier::external_body]
pub(crate) fn v_clone(v: &serde_json::Value) -> (r: serde_json::Value)
    ensures
        jv(r) == jv(*v),
{
    v.clone()
}

} // verus!
