//! Multiplication followed by division, computed without intermediate overflow.
use muldiv::MulDiv;
use vstd::prelude::*;

verus! {

/// `floor(a * b / d)`.
pub open spec fn mul_div_floor_value(a: int, b: int, d: int) -> int {
    a * b / d
}

/// `ceil(a * b / d)`.
pub open spec fn mul_div_ceil_value(a: int, b: int, d: int) -> int {
    (a * b + d - 1) / d
}

/// `Some(v)` when `v` fits in a `u64`, else `None`.
pub open spec fn fit_u64(v: int) -> Option<u64> {
    if 0 <= v <= u64::MAX {
        Some(v as u64)
    } else {
        None
    }
}

/// Calls `muldiv::MulDiv::mul_div_floor` on `u64`: the crate computes `a * num / denom` in
/// `u128` and returns `None` when the quotient does not fit in a `u64`.  It asserts that
/// `denom` is non-zero, so a zero denominator is excluded.
#[verifier::external_body]
pub(crate) fn mul_div_floor(a: u64, num: u64, denom: u64) -> (r: Option<u64>)
    requires
        denom > 0,
    ensures
        r == fit_u64(mul_div_floor_value(a as int, num as int, denom as int)),
{
    a.mul_div_floor(num, denom)
}

/// Calls `muldiv::MulDiv::mul_div_ceil` on `u64`: the crate computes
/// `(a * num + denom - 1) / denom` in `u128` and returns `None` when the quotient does not fit in
/// a `u64`.  It asserts that `denom` is non-zero, so a zero denominator is excluded.
#[verifier::external_body]
pub(crate) fn mul_div_ceil(a: u64, num: u64, denom: u64) -> (r: Option<u64>)
    requires
        denom > 0,
    ensures
        r == fit_u64(mul_div_ceil_value(a as int, num as int, denom as int)),
{
    a.mul_div_ceil(num, denom)
}

/// Bounds of the rounded quotients: when `a * b <= d * m`, both `floor(a * b / d)` and
/// `ceil(a * b / d)` lie in `[0, m]`.
pub proof fn lemma_mul_div_le(a: int, b: int, d: int, m: int)
    requires
        d > 0,
        a >= 0,
        b >= 0,
        a * b <= d * m,
    ensures
        0 <= mul_div_floor_value(a, b, d) <= mul_div_ceil_value(a, b, d) <= m,
{
    vstd::arithmetic::mul::lemma_mul_nonnegative(a, b);
    vstd::arithmetic::div_mod::lemma_div_pos_is_pos(a * b, d);
    vstd::arithmetic::div_mod::lemma_div_is_ordered(a * b, a * b + d - 1, d);
    vstd::arithmetic::mul::lemma_mul_is_distributive_add(d, m, 1);
    vstd::arithmetic::div_mod::lemma_multiply_divide_lt(a * b + d - 1, d, m + 1);
}

} // verus!
