//! Factory instructions of the prototype pool program, which reports invalid fee tiers as
//! errors rather than refusing them outright.
use crate::states::factory::FactoryState;
use crate::states::fee::FeeState;
use crate::states::pubkey::Pubkey;
use vstd::prelude::*;

verus! {

/// Errors returned by the prototype pool program.
#[derive(Clone, Copy, Debug, PartialEq, Eq, Structural)]
pub enum ErrorCode {
    /// Fees collected should be less than 1_000_000 (100%)
    FeeLimit,
    /// Tick spacing should be less than 16384
    TickSpacingLimit,
}

/// Initializes the factory with its bump and owner.
pub fn initialize(bump: u8, owner: Pubkey) -> (factory_state: FactoryState)
    ensures
        factory_state.bump == bump,
        factory_state.owner == owner,
{
    FactoryState { bump, owner }
}

/// Enables a fee amount with the given tick spacing: `FeeLimit` when the fee exceeds 1_000_000
/// (100%), else `TickSpacingLimit` when the tick spacing exceeds 16384.
///
/// # Arguments
///
/// * `fee` - The fee amount, denominated in hundredths of a bip (i.e. 1e-6)
/// * `tick_spacing` - The spacing between ticks for pools with this fee
/// * `fee_bump` - Bump to validate the fee state address
pub fn enable_fee_amount(fee: u32, tick_spacing: u16, fee_bump: u8) -> (result: Result<
    FeeState,
    ErrorCode,
>)
    ensures
        result == if fee > 1_000_000 {
            Err::<FeeState, ErrorCode>(ErrorCode::FeeLimit)
        } else if tick_spacing > 16384 {
            Err(ErrorCode::TickSpacingLimit)
        } else {
            Ok(FeeState { bump: fee_bump, fee, tick_spacing })
        },
{
    if fee > 1_000_000 {
        // 100% fee
        return Err(ErrorCode::FeeLimit);
    }
    if tick_spacing > 16384 {
        return Err(ErrorCode::TickSpacingLimit);
    }
    Ok(FeeState { bump: fee_bump, fee, tick_spacing })
}

/// The smallest tick of the prototype's tick range.
pub const MIN_TICK: i32 = -443636;

/// The largest tick of the prototype's tick range.
pub const MAX_TICK: i32 = 443636;

/// Checks that the lower tick lies below the upper tick and both lie in the prototype's tick
/// range.  The prototype asserts this, so a call outside these inputs is refused by the
/// precondition; the function computes nothing else.
///
/// # Arguments
///
/// * `tick_lower` - The lower tick
/// * `tick_upper` - The upper tick
pub fn check_ticks(tick_lower: i32, tick_upper: i32)
    requires
        tick_lower < tick_upper,
        tick_lower >= MIN_TICK,
        tick_upper <= MAX_TICK,
{
}

/// `a / b` rounded towards zero, as integer division in Rust computes it (`/` on `int` being
/// Euclidean division): the magnitude of the dividend is divided, and the sign put back.
pub open spec fn div_toward_zero(a: int, b: int) -> int {
    if a >= 0 {
        a / b
    } else {
        -((-a) / b)
    }
}

/// The tick count that `tick_spacing_to_max_liquidity_per_tick` divides by, the total count of
/// ticks for the spacing: `(max_tick - min_tick) / tick_spacing + 1`, with `min_tick` and
/// `max_tick` the range bounds rounded towards zero to multiples of the spacing.
pub open spec fn tick_count(tick_spacing: int) -> int {
    let min_tick = div_toward_zero(MIN_TICK as int, tick_spacing) * tick_spacing;
    let max_tick = div_toward_zero(MAX_TICK as int, tick_spacing) * tick_spacing;
    div_toward_zero(max_tick - min_tick, tick_spacing) + 1
}

/// Divides `u32::MAX` by the total count of ticks for the given tick spacing,
/// `|(max_tick - min_tick) / tick_spacing + 1|`.
///
/// # Arguments
///
/// * `tick_spacing` - The non-zero tick spacing
pub fn tick_spacing_to_max_liquidity_per_tick(tick_spacing: i32) -> (max_liquidity: u32)
    requires
        tick_spacing != 0,
        tick_count(tick_spacing as int) != 0,
    ensures
        max_liquidity == u32::MAX as int / (vstd::math::abs(tick_count(tick_spacing as int)) as int),
{
    let ghost s = tick_spacing as int;
    proof {
        lemma_div_toward_zero_bounds(MIN_TICK as int, s);
        lemma_div_toward_zero_bounds(MAX_TICK as int, s);
    }
    let q_min = MIN_TICK / tick_spacing;
    let q_max = MAX_TICK / tick_spacing;
    let min_tick = q_min * tick_spacing;
    let max_tick = q_max * tick_spacing;
    proof {
        lemma_div_toward_zero_bounds((max_tick - min_tick) as int, s);
    }
    let num_ticks = (max_tick - min_tick) / tick_spacing + 1;
    let max_liquidity = u32::MAX;
    let num_ticks_abs = if num_ticks < 0 {
        -num_ticks
    } else {
        num_ticks
    };
    max_liquidity / (num_ticks_abs as u32)
}

/// Rounding towards zero keeps the magnitude of the quotient within that of the dividend, and
/// the product with the divisor within the dividend's magnitude.
proof fn lemma_div_toward_zero_bounds(a: int, b: int)
    requires
        b != 0,
    ensures
        vstd::math::abs(div_toward_zero(a, b)) <= vstd::math::abs(a),
        vstd::math::abs(div_toward_zero(a, b) * b) <= vstd::math::abs(a),
{
    let aa = if a >= 0 { a } else { -a };
    lemma_div_magnitude(aa, b);
    let q = aa / b;
    if a < 0 {
        vstd::arithmetic::mul::lemma_mul_unary_negation(q, b);
    }
}

/// For a non-negative dividend, the Euclidean quotient and its product with the divisor lie
/// within the dividend's magnitude.
proof fn lemma_div_magnitude(a: int, b: int)
    requires
        a >= 0,
        b != 0,
    ensures
        vstd::math::abs(a / b) <= a,
        0 <= (a / b) * b <= a,
{
    vstd::arithmetic::div_mod::lemma_fundamental_div_mod(a, b);
    let q = a / b;
    let r = a % b;
    assert(0 <= r < vstd::math::abs(b));
    assert(0 <= q * b <= a && vstd::math::abs(q) <= a) by (nonlinear_arith)
        requires
            a == b * q + r,
            0 <= r < vstd::math::abs(b),
            a >= 0,
            b != 0,
    ;
}

} // verus!
