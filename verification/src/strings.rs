//! What this library takes on trust from the standard library's strings.

use vstd::prelude::*;

verus! {

/// `String::push` appends the character to the end of the string and leaves
/// the characters before it as they were.
pub assume_specification[ String::push ](s: &mut String, ch: char)
    ensures
        final(s)@ == old(s)@.push(ch),
;

} // verus!
