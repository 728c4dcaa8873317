//! Decisions of the swap router around a swap of the core program: the deadline, the default
//! price limit and the slippage check on the amount received.
use crate::libraries::tick_math::{MAX_SQRT_RATIO, MIN_SQRT_RATIO};
use vstd::prelude::*;

verus! {

/// Errors returned by the swap router.
#[derive(Clone, Copy, Debug, PartialEq, Eq, Structural)]
pub enum ErrorCode {
    /// Transaction too old
    TransactionTooOld,
    /// The swap gave less than the minimum amount out
    TooLittleReceived,
}

/// Checks whether the transaction time has not crossed the deadline.
///
/// # Arguments
///
/// * `now` - The current unix timestamp of the cluster
/// * `deadline` - The deadline specified by a user
pub fn check_deadline(now: i64, deadline: i64) -> (result: Result<(), ErrorCode>)
    ensures
        result == (if now <= deadline {
            Ok::<(), ErrorCode>(())
        } else {
            Err(ErrorCode::TransactionTooOld)
        }),
{
    if !(now <= deadline) {
        return Err(ErrorCode::TransactionTooOld);
    }
    Ok(())
}

/// The price limit handed to the swap: the user's limit, or when it is zero the most extreme
/// price the swap may reach in its direction, just inside `[MIN_SQRT_RATIO, MAX_SQRT_RATIO]`.
///
/// # Arguments
///
/// * `zero_for_one` - The direction of the swap, true for token_0 to token_1
/// * `sqrt_price_limit_x32` - The Q32.32 sqrt price limit, or zero for none
pub fn effective_sqrt_price_limit(zero_for_one: bool, sqrt_price_limit_x32: u64) -> (limit: u64)
    ensures
        limit == if sqrt_price_limit_x32 == 0 {
            if zero_for_one {
                MIN_SQRT_RATIO + 1
            } else {
                MAX_SQRT_RATIO - 1
            }
        } else {
            sqrt_price_limit_x32 as int
        },
{
    if sqrt_price_limit_x32 == 0 {
        if zero_for_one {
            MIN_SQRT_RATIO + 1
        } else {
            MAX_SQRT_RATIO - 1
        }
    } else {
        sqrt_price_limit_x32
    }
}

/// The amount swapped out of the pool: how much the vault of the output token lost.
///
/// # Arguments
///
/// * `balance_before` - The vault balance before the swap
/// * `balance_after` - The vault balance after the swap, at most `balance_before`
pub fn amount_swapped_out(balance_before: u64, balance_after: u64) -> (amount_out: u64)
    requires
        balance_after <= balance_before,
    ensures
        amount_out == balance_before - balance_after,
{
    balance_before - balance_after
}

/// Slippage check of an exact input swap: `TooLittleReceived` when the amount out is below the
/// minimum.
///
/// # Arguments
///
/// * `amount_out` - The amount received from the swap
/// * `amount_out_minimum` - The minimum amount to swap out
pub fn check_amount_out(amount_out: u64, amount_out_minimum: u64) -> (result: Result<(), ErrorCode>)
    ensures
        result == (if amount_out >= amount_out_minimum {
            Ok::<(), ErrorCode>(())
        } else {
            Err(ErrorCode::TooLittleReceived)
        }),
{
    if !(amount_out >= amount_out_minimum) {
        return Err(ErrorCode::TooLittleReceived);
    }
    Ok(())
}

} // verus!
