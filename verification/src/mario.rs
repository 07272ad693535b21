//! A small game character with an associated constructor and a coin
//! accessor.

use vstd::prelude::*;

verus! {

/// The plumber: his size and his purse.
#[derive(Clone, Copy, PartialEq, Eq, Structural, Debug)]
pub struct Mario {
    /// Whether he is in his small form.
    pub is_small: bool,
    /// How many coins he carries.
    pub coins: i32,
}

impl Mario {
    /// A fresh character: full-sized, with a hundred coins.
    pub fn new() -> (r: Self)
        ensures
            r.is_small == false,
            r.coins == 100,
    {
        Mario { is_small: false, coins: 100 }
    }

    /// How many coins he carries.
    pub fn get_coins(&self) -> (r: i32)
        ensures
            r == self.coins,
    {
        self.coins
    }
}

} // verus!
