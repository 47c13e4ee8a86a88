//! Character classes and string primitives of the standard library.
//!
//! Nothing in this file is proved: each declaration states what the rest of
//! the crate takes on trust from `std`.

use vstd::prelude::*;

verus! {

/// Whether `c` carries the Unicode `Alphabetic` property.
pub uninterp spec fn is_letter(c: char) -> bool;

/// Whether `c` carries the Unicode `White_Space` property.
pub uninterp spec fn is_space(c: char) -> bool;

/// Trusted: `char::is_alphabetic` is a function of the character alone; its
/// answer is named [`is_letter`]. Nothing is claimed about which
/// characters are letters.
pub assume_specification[ char::is_alphabetic ](c: char) -> (b: bool)
    ensures
        b == is_letter(c),
;

/// Trusted: `char::is_whitespace` is a function of the character alone; its
/// answer is named [`is_space`]. Nothing is claimed about which
/// characters are white space.
pub assume_specification[ char::is_whitespace ](c: char) -> (b: bool)
    ensures
        b == is_space(c),
;

/// Trusted: `String::push` appends the one character to the end of the string.
pub assume_specification[ String::push ](s: &mut String, c: char)
    ensures
        final(s)@ == old(s)@.push(c),
;

/// The characters of `s`, in order.
pub fn to_chars(s: &str) -> (v: Vec<char>)
    ensures
        v@ == s@,
{
    let mut v: Vec<char> = Vec::new();
    for c in it: s.chars()
        invariant
            it.seq() == s@,
            v@ == s@.take(it.index()),
    {
        v.push(c);
    }
    v
}

/// The string made of the characters of `v`, in order.
pub fn from_chars(v: &Vec<char>) -> (s: String)
    ensures
        s@ == v@,
{
    let mut s = String::new();
    let mut i: usize = 0;
    while i < v.len()
        invariant
            i <= v.len(),
            s@ == v@.take(i as int),
        decreases v.len() - i,
    {
        s.push(v[i]);
        i = i + 1;
    }
    s
}

} // verus!
