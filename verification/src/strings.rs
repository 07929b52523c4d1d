//! What this crate relies on from `String` beyond what vstd specifies.

use vstd::prelude::*;

verus! {

/// `String::push`: appends the character to the end of the string. This is
/// std's documented behaviour, taken on trust.
pub assume_specification[ String::push ](text: &mut String, ch: char)
    ensures
        final(text)@ == old(text)@.push(ch),
;

} // verus!
