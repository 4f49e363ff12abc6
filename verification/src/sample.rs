//! A small arithmetic sample that the project keeps beside the server.
use vstd::prelude::*;

verus! {

/// `a - b`.
pub fn subtract(a: i32, b: i32) -> (r: i32)
    requires
        i32::MIN <= a - b <= i32::MAX,
    ensures
        r == a - b,
{
    a - b
}

/// `a + b`, after working out `a - b` as well.
pub fn add(a: i32, b: i32) -> (r: i32)
    requires
        i32::MIN <= a - b <= i32::MAX,
        i32::MIN <= a + b <= i32::MAX,
    ensures
        r == a + b,
{
    let _ = subtract(a, b);
    a + b
}

/// Adds one and two.
pub fn dummy() {
    let r = self::add(1, 2);
    assert(r == 3);
}

} // verus!
