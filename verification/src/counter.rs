//! A stored counter with accessor, setter, increment, and an internal
//! operation.

use vstd::prelude::*;

verus! {

/// A counter held in contract storage.
#[derive(Clone, Copy, PartialEq, Eq, Structural, Debug)]
pub struct Counter {
    /// The stored number.
    pub number: u64,
}

impl Counter {
    /// Gets the number value from storage.
    pub fn number(&self) -> (r: Result<u64, Vec<u8>>)
        ensures
            r == Ok::<u64, Vec<u8>>(self.number),
    {
        Ok(self.number)
    }

    /// Sets the number in storage to a caller-chosen value.
    pub fn set_number(&mut self, new_number: u64) -> (r: Result<(), Vec<u8>>)
        ensures
            final(self).number == new_number,
            r is Ok,
    {
        self.number = new_number;
        Ok(())
    }

    /// Adds one to the stored number.
    pub fn increment(&mut self) -> (r: Result<(), Vec<u8>>)
        requires
            old(self).number < u64::MAX,
        ensures
            final(self).number == old(self).number + 1,
            r is Ok,
    {
        let number = self.number;
        self.set_number(number + 1)
    }

    /// An internal bookkeeping step; it changes nothing observable.
    pub fn other_internal_op(&mut self) -> (r: Result<(), Vec<u8>>)
        ensures
            *final(self) == *old(self),
            r is Ok,
    {
        Ok(())
    }
}

} // verus!
