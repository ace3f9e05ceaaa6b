//! Integers in other integer types.
use vstd::prelude::*;

verus! {

/// The `i64` with the bits of `n`.
pub open spec fn wrapped_i64(n: u64) -> i64 {
    if n <= i64::MAX {
        n as i64
    } else {
        (n - 0x1_0000_0000_0000_0000) as i64
    }
}

/// The `i64` with the bits of `n`.
pub fn wrap_i64(n: u64) -> (r: i64)
    ensures
        r == wrapped_i64(n),
{
    if n <= i64::MAX as u64 {
        n as i64
    } else {
        (n as i128 - 0x1_0000_0000_0000_0000) as i64
    }
}

/// A number that an `i64` holds is itself, and any other is less by the number of all of them: the
/// bits are the same.
pub proof fn small_numbers_stay(n: u64)
    ensures
        n <= 9_223_372_036_854_775_807 ==> wrapped_i64(n) == n,
        n > 9_223_372_036_854_775_807 ==> wrapped_i64(n) == n - 18_446_744_073_709_551_616,
{
}

} // verus!
