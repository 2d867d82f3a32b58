//! The few points where the library leans on outside code: URI validity,
//! collecting characters into an owned string, and code points.

use vstd::prelude::*;

verus! {

/// Whether hyper's URI parser accepts a string; a fixed function of the
/// characters alone.
pub uninterp spec fn uri_ok(s: Seq<char>) -> bool;

/// Relies on `hyper::Uri`'s `FromStr` impl (http's URI parser): whether a
/// string parses depends only on the characters of the input.
#[verifier::external_body]
pub(crate) fn uri_is_valid(s: &str) -> (r: bool)
    ensures
        r == uri_ok(s@),
{
    s.parse::<hyper::Uri>().is_ok()
}

/// Relies on `String`'s `FromIterator<char>` impl: collecting yields a string
/// of exactly the characters iterated, in order.
#[verifier::external_body]
pub(crate) fn chars_to_string(v: &Vec<char>) -> (r: String)
    ensures
        r@ == v@,
{
    v.iter().collect()
}

/// Relies on `char::from_u32`: `Some` exactly for Unicode scalar values (not
/// a surrogate, at most 0x10FFFF), returning the character with that code
/// point.
#[verifier::external_body]
pub(crate) fn char_from_code(v: u32) -> (r: Option<char>)
    ensures
        r is Some <==> (v < 0xD800 || (0xE000 <= v && v <= 0x10FFFF)),
        r matches Some(c) ==> c as u32 == v,
{
    char::from_u32(v)
}

} // verus!
