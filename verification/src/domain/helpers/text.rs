//! What the library assumes of the text operations of the standard library
//! that it uses.

use vstd::prelude::*;

verus! {

/// `String::push_str` appends the given slice to the end of the string.
pub assume_specification[ String::push_str ](s: &mut String, other: &str)
    ensures
        final(s)@ == old(s)@ + other@,
;

} // verus!
