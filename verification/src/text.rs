//! Building owned strings one character at a time.

use vstd::prelude::*;

verus! {

/// `String::push` appends exactly the given character and leaves what was
/// already in the string untouched.
pub assume_specification[ String::push ](s: &mut String, ch: char)
    ensures
        final(s)@ == old(s)@.push(ch),
;

} // verus!
