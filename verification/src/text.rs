use vstd::prelude::*;

verus! {

/// Relies on `char::from_u32`: yields the character with this scalar
/// value, and `None` exactly for surrogate values and values above the
/// largest code point.
pub assume_specification[ char::from_u32 ](i: u32) -> (r: Option<char>)
    ensures
        r is Some <==> (i < 0xD800 || (0xE000 <= i && i <= 0x10FFFF)),
        r matches Some(c) ==> c == (i as char),
;

/// Relies on `String::from_iter` over the characters of a slice: the
/// returned string holds exactly the given characters, in order.
#[verifier::external_body]
pub fn string_from_chars(v: &Vec<char>) -> (r: String)
    ensures
        r@ == v@,
{
    v.iter().collect()
}

} // verus!
