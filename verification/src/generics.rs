//! Finding the largest element of a list, at two concrete integer
//! widths, a generic point, and the longer of two strings.

use vstd::prelude::*;
use vstd::string::StrSliceExecFns;

verus! {

/// The largest element of a non-empty list of 32-bit integers.
pub fn largest_for_i32(list: &Vec<i32>) -> (r: i32)
    requires
        list@.len() > 0,
    ensures
        forall|i: int| 0 <= i < list@.len() ==> list@[i] <= r,
        list@.contains(r),
{
    let mut largest = list[0];
    let n = list.len();
    let mut i: usize = 1;
    while i < n
        invariant
            n == list@.len(),
            1 <= i <= n,
            forall|j: int| 0 <= j < i ==> list@[j] <= largest,
            list@.contains(largest),
        decreases n - i,
    {
        if list[i] > largest {
            largest = list[i];
        }
        i += 1;
    }
    largest
}

/// The largest element of a non-empty list of 64-bit integers.
pub fn largest_for_i64(list: &Vec<i64>) -> (r: i64)
    requires
        list@.len() > 0,
    ensures
        forall|i: int| 0 <= i < list@.len() ==> list@[i] <= r,
        list@.contains(r),
{
    let mut largest = list[0];
    let n = list.len();
    let mut i: usize = 1;
    while i < n
        invariant
            n == list@.len(),
            1 <= i <= n,
            forall|j: int| 0 <= j < i ==> list@[j] <= largest,
            list@.contains(largest),
        decreases n - i,
    {
        if list[i] > largest {
            largest = list[i];
        }
        i += 1;
    }
    largest
}

/// A point whose two coordinates share one type.
#[derive(Clone, Copy, PartialEq, Eq, Debug)]
pub struct Point1<T> {
    /// The first coordinate.
    pub x: T,
    /// The second coordinate.
    pub y: T,
}

impl<T> Point1<T> {
    /// A reference to the first coordinate.
    pub fn get_x(&self) -> (r: &T)
        ensures
            *r == self.x,
    {
        &self.x
    }
}

/// The longer of two strings, the second on a tie.
pub fn longest<'a>(x: &'a str, y: &'a str) -> (r: &'a str)
    ensures
        x@.len() > y@.len() ==> r@ == x@,
        x@.len() <= y@.len() ==> r@ == y@,
{
    if x.unicode_len() > y.unicode_len() {
        x
    } else {
        y
    }
}

} // verus!
