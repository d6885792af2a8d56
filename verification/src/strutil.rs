//! Conversions between strings and character vectors.
//!
//! The text algorithms of this crate work on `Vec<char>`, whose contents
//! Verus reasons about directly. These two wrappers move between that form
//! and `String`/`&str`, whose view is the same sequence of characters.

use vstd::prelude::*;

verus! {

/// Relies on `str::chars` and `Iterator::collect`: the characters of the
/// string, in order.
#[verifier::external_body]
pub(crate) fn chars_of(s: &str) -> (v: Vec<char>)
    ensures
        v@ == s@,
{
    s.chars().collect()
}

/// Relies on `String`'s `FromIterator<char>` impl: the collected string
/// holds exactly the characters of the vector, in order.
#[verifier::external_body]
pub(crate) fn string_of_chars(v: &Vec<char>) -> (s: String)
    ensures
        s@ == v@,
{
    v.iter().collect()
}

} // verus!
