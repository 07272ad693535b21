//! Ownership hand-offs: a value type that moves into a function, and a
//! length computation that hands its argument back.

use vstd::prelude::*;
use vstd::string::StrSliceExecFns;

verus! {

/// A value worth owning.
#[derive(Clone, Copy, PartialEq, Eq, Structural, Debug)]
pub struct Foo {
    /// Its payload.
    pub x: i32,
}

/// Takes ownership of the value and reads its payload out; the value is
/// dropped here. Showing the payload is the caller's business.
pub fn do_something(f: Foo) -> (r: i32)
    ensures
        r == f.x,
{
    f.x
}

/// The length of a string, handed back together with the string itself,
/// whose ownership the function took.
pub fn calculate_length(s: String) -> (r: (String, usize))
    ensures
        r.0@ == s@,
        r.1 == s@.len(),
{
    let length = s.as_str().unicode_len();
    (s, length)
}

} // verus!
