//! Math library for liquidity.
use crate::error::ErrorCode;
use vstd::prelude::*;

verus! {

/// The outcome of adding the signed delta `y` to the liquidity `x`: the sum when it lies within
/// `u64`, `LS` when it falls below zero and `LA` when it exceeds `u64::MAX`.
pub open spec fn add_delta_result(x: u64, y: i64) -> Result<u64, ErrorCode> {
    if x + y < 0 {
        Err(ErrorCode::LS)
    } else if x + y > u64::MAX {
        Err(ErrorCode::LA)
    } else {
        Ok((x + y) as u64)
    }
}

/// Add a signed liquidity delta to liquidity and revert if it overflows or underflows.
///
/// # Arguments
///
/// * `x` - The liquidity (L) before change
/// * `y` - The delta (ΔL) by which liquidity should be changed
pub fn add_delta(x: u64, y: i64) -> (z: Result<u64, ErrorCode>)
    ensures
        z == add_delta_result(x, y),
{
    if y < 0 {
        let magnitude: u64 = if y == i64::MIN {
            0x8000000000000000
        } else {
            (-y) as u64
        };
        match x.checked_sub(magnitude) {
            Some(z) => Ok(z),
            None => Err(ErrorCode::LS),
        }
    } else {
        match x.checked_add(y as u64) {
            Some(z) => Ok(z),
            None => Err(ErrorCode::LA),
        }
    }
}

/// Adding a delta and then its negation gives back the liquidity: what a mint adds, a burn of
/// the same amount removes.
pub proof fn lemma_add_delta_inverse(x: u64, y: i64)
    requires
        y > i64::MIN,
        add_delta_result(x, y) is Ok,
    ensures
        add_delta_result(add_delta_result(x, y)->Ok_0, (-y) as i64) == Ok::<u64, ErrorCode>(x),
{
}

/// Adding a signed delta to a liquidity succeeds exactly when the sum lies within `u64`, and then
/// gives the sum; it fails with `LS` when the sum is negative and with `LA` when it exceeds
/// `u64::MAX`.
pub proof fn lemma_add_delta_is_sum(x: u64, y: i64)
    ensures
        add_delta_result(x, y) matches Ok(z) ==> z == x + y,
        add_delta_result(x, y) is Ok <==> 0 <= x + y <= u64::MAX,
        add_delta_result(x, y) == Err::<u64, ErrorCode>(ErrorCode::LS) <==> x + y < 0,
        add_delta_result(x, y) == Err::<u64, ErrorCode>(ErrorCode::LA) <==> x + y > u64::MAX,
{
}

} // verus!
