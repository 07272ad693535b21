//! Borrowed access: reading a length through a shared reference and
//! appending through an exclusive one.

use vstd::prelude::*;
use vstd::string::{StrSliceExecFns, StringExecFns};

verus! {

/// The length of the borrowed string, in characters.
pub fn calculate_length(s: &String) -> (r: usize)
    ensures
        r == s@.len(),
{
    s.as_str().unicode_len()
}

/// Appends a fixed greeting to the borrowed string.
pub fn change(some_string: &mut String)
    ensures
        final(some_string)@ == old(some_string)@ + ", hackquest."@,
{
    some_string.append(", hackquest.");
}

} // verus!
