//! Small arithmetic functions: sums, a guarded maximum, and a division
//! that reports rather than divides by zero.

use vstd::prelude::*;
use vstd::string::StringExecFns;

verus! {

/// The sum of two numbers.
pub fn sum(x: i32, y: i32) -> (r: i32)
    requires
        i32::MIN <= x + y <= i32::MAX,
    ensures
        r == x + y,
{
    x + y
}

/// The sum of two numbers, trusting the caller to stay in range.
pub fn unsafe_add(i: i32, j: i32) -> (r: i32)
    requires
        i32::MIN <= i + j <= i32::MAX,
    ensures
        r == i + j,
{
    i + j
}

/// One more than the larger of the two arguments.
pub fn max_plus_one(x: i32, y: i32) -> (r: i32)
    requires
        x > y ==> x < i32::MAX,
        x <= y ==> y < i32::MAX,
    ensures
        x > y ==> r == x + 1,
        x <= y ==> r == y + 1,
{
    if x > y {
        return x + 1;
    }
    y + 1
}

/// Divides `a` by `b`, reporting a zero divisor instead of failing.
pub fn divide(a: i32, b: i32) -> (r: Result<i32, String>)
    requires
        a >= 0,
        b >= 0,
    ensures
        match r {
            Ok(q) => b != 0 && q == a / b,
            Err(e) => b == 0 && e@ == "Cannot divide by zero!"@,
        },
{
    if b == 0 {
        Err(String::from_str("Cannot divide by zero!"))
    } else {
        Ok(a / b)
    }
}

} // verus!
