//! The scalar operations that the componentwise operations take from the
//! `num-traits` and `simba` crates, each behind a contract.
use vstd::prelude::*;

verus! {

/// The absolute value of an integer, as a mathematical integer.
pub open spec fn abs_int(x: int) -> int {
    if x < 0 { -x } else { x }
}

/// The smaller of two integers.
pub open spec fn min_int(a: int, b: int) -> int {
    if a <= b { a } else { b }
}

/// The larger of two integers.
pub open spec fn max_int(a: int, b: int) -> int {
    if a >= b { a } else { b }
}

/// Calls `num_traits::Signed::abs` on an `i64`. Its source negates the value
/// when it is negative and returns it unchanged otherwise; the negation of
/// `i64::MIN` overflows, so that input is left out.
#[verifier::external_body]
pub(crate) fn signed_abs(x: i64) -> (r: i64)
    requires
        x != i64::MIN,
    ensures
        r == abs_int(x as int),
{
    num_traits::Signed::abs(&x)
}

/// Calls `num_traits::Zero::is_zero` on an `i64`. Its source compares the
/// value with `0`.
#[verifier::external_body]
pub(crate) fn is_zero(x: i64) -> (r: bool)
    ensures
        r == (x == 0),
{
    num_traits::Zero::is_zero(&x)
}

/// Calls `simba::simd::SimdPartialOrd::simd_min` on two `i64`. For a
/// scalar its source returns `self` when `self <= other`, else `other`.
#[verifier::external_body]
pub(crate) fn simd_min(a: i64, b: i64) -> (r: i64)
    ensures
        r == min_int(a as int, b as int),
{
    simba::simd::SimdPartialOrd::simd_min(a, b)
}

/// Calls `simba::simd::SimdPartialOrd::simd_max` on two `i64`. For a
/// scalar its source returns `self` when `self >= other`, else `other`.
#[verifier::external_body]
pub(crate) fn simd_max(a: i64, b: i64) -> (r: i64)
    ensures
        r == max_int(a as int, b as int),
{
    simba::simd::SimdPartialOrd::simd_max(a, b)
}

} // verus!
