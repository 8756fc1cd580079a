use vstd::prelude::*;

verus! {

/// Relies on `str::chars` collected into a `Vec`: the iterator yields the
/// string's characters in order, so the vector holds exactly them.
#[verifier::external_body]
pub fn string_to_chars(s: &str) -> (v: Vec<char>)
    ensures
        v@ == s@,
{
    s.chars().collect()
}

/// Relies on `String`'s `FromIterator<char>`: collecting characters builds
/// the string of exactly those characters in order.
#[verifier::external_body]
pub fn chars_to_string(v: &Vec<char>) -> (s: String)
    ensures
        s@ == v@,
{
    v.iter().collect()
}

} // verus!
