//! A module of its own, with a plain function in it; how a crate splits
//! into modules.

use vstd::prelude::*;

verus! {

/// A function reached through its module; it does nothing observable.
pub fn my_function() {
}

} // verus!
