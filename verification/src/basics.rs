//! Two tiny arithmetic helpers kept for completeness.

use vstd::prelude::*;

verus! {

/// A block whose tail expression is its value.
pub fn expression_example() -> (y: u8)
    ensures
        y == 4,
{
    let x: u8 = 3;
    x + 1
}

/// The successor of the argument.
pub fn plus_one(x: i32) -> (r: i32)
    requires
        x < i32::MAX,
    ensures
        r == x + 1,
{
    x + 1
}

} // verus!
