//! Bridges to the `serde_json` and `uuid` crates. Each wrapper makes one
//! outside call; what that call returns is a function of its argument alone
//! and is given a name here, so that the engine's contracts can speak of it.

use vstd::prelude::*;
use std::collections::BTreeMap;

verus! {

/// The JSON object `s` parses to, as key/value pairs of strings in ascending
/// key order, or `None` when `s` is not a JSON object whose values are all
/// strings.
pub uninterp spec fn json_object_of(s: Seq<char>) -> Option<Seq<(Seq<char>, Seq<char>)>>;

/// Relies on `serde_json::from_str::<BTreeMap<String, String>>`: the result
/// depends on the characters of the input alone, and a `BTreeMap` hands its
/// entries out in ascending key order.
#[verifier::external_body]
pub fn parse_string_object(s: &str) -> (r: Option<Vec<(String, String)>>)
    ensures
        r is Some <==> json_object_of(s@) is Some,
        r matches Some(v) ==> json_object_of(s@) == Some(
            Seq::new(v@.len(), |i: int| (v@[i].0@, v@[i].1@)),
        ),
{
    match serde_json::from_str::<BTreeMap<String, String>>(s) {
        Ok(m) => Some(m.into_iter().collect()),
        Err(_) => None,
    }
}

/// The JSON array of strings `s` parses to, or `None` when `s` is not one.
pub uninterp spec fn json_string_list_of(s: Seq<char>) -> Option<Seq<Seq<char>>>;

/// Relies on `serde_json::from_str::<Vec<String>>`: the result depends on the
/// characters of the input alone.
#[verifier::external_body]
pub fn parse_string_list(s: &str) -> (r: Option<Vec<String>>)
    ensures
        r is Some <==> json_string_list_of(s@) is Some,
        r matches Some(v) ==> json_string_list_of(s@) == Some(
            Seq::new(v@.len(), |i: int| v@[i]@),
        ),
{
    match serde_json::from_str::<Vec<String>>(s) {
        Ok(v) => Some(v),
        Err(_) => None,
    }
}

/// The JSON array of unsigned 64-bit integers `s` parses to, or `None` when
/// `s` is not one.
pub uninterp spec fn json_u64_list_of(s: Seq<char>) -> Option<Seq<u64>>;

/// Relies on `serde_json::from_str::<Vec<u64>>`: the result depends on the
/// characters of the input alone.
#[verifier::external_body]
pub fn parse_u64_list(s: &str) -> (r: Option<Vec<u64>>)
    ensures
        match r {
            Some(v) => json_u64_list_of(s@) == Some(v@),
            None => json_u64_list_of(s@) is None,
        },
{
    match serde_json::from_str::<Vec<u64>>(s) {
        Ok(v) => Some(v),
        Err(_) => None,
    }
}

/// The 128-bit value of the UUID literal `s`, or `None` when `s` is not a
/// UUID literal.
pub uninterp spec fn uuid_of(s: Seq<char>) -> Option<u128>;

/// Relies on `uuid::Uuid::parse_str` and `Uuid::as_u128`: parsing depends on
/// the characters of the input alone, and `as_u128` returns the UUID's bytes
/// in big-endian order.
#[verifier::external_body]
pub fn parse_uuid(s: &str) -> (r: Option<u128>)
    ensures
        r == uuid_of(s@),
{
    match uuid::Uuid::parse_str(s) {
        Ok(u) => Some(u.as_u128()),
        Err(_) => None,
    }
}

} // verus!
