//! Next square-root price for a change in token supply, and token amounts between two prices.
//!
//! Prices are square roots `√P` in Q32.32 form, liquidity `L` is a plain integer and
//! `P = token_1_supply / token_0_supply`.
use crate::libraries::fixed_point_x32::{Q32, RESOLUTION};
use crate::libraries::full_math::{
    lemma_mul_div_le, mul_div_ceil, mul_div_ceil_value, mul_div_floor, mul_div_floor_value,
};
use crate::libraries::unsafe_math::{div_ceil, div_rounding_up};
use vstd::arithmetic::power2::*;
use vstd::bits::*;
use vstd::prelude::*;

verus! {

/// `L` as a Q32.32 number: `L * 2^32`.
pub open spec fn liquidity_x32(liquidity: u32) -> int {
    liquidity as int * 4294967296
}

/// Whether `Δx * √P` and `L * 2^32 + Δx * √P` both fit in a `u64`, so that the exact form of the
/// token_0 price formula applies.
pub open spec fn amount_0_product_fits(sqrt_p_x32: u64, liquidity: u32, amount: u64) -> bool {
    &&& amount * sqrt_p_x32 <= u64::MAX
    &&& liquidity_x32(liquidity) + amount * sqrt_p_x32 <= u64::MAX
}

/// Next square-root price after adding (removing) `Δx` of token_0, rounded up:
/// `√P' = ceil(L·2^32 · √P / (L·2^32 ± Δx·√P))`, or, when adding and the exact form overflows,
/// the alternate form `√P' = ceil(L·2^32 / (floor(L·2^32 / √P) + Δx))`.
pub open spec fn next_sqrt_price_from_amount_0(
    sqrt_p_x32: u64,
    liquidity: u32,
    amount: u64,
    add: bool,
) -> int {
    let n = liquidity_x32(liquidity);
    if amount == 0 {
        sqrt_p_x32 as int
    } else if add {
        if amount_0_product_fits(sqrt_p_x32, liquidity, amount) {
            mul_div_ceil_value(n, sqrt_p_x32 as int, n + amount * sqrt_p_x32)
        } else {
            div_ceil(n, n / (sqrt_p_x32 as int) + amount)
        }
    } else {
        mul_div_ceil_value(n, sqrt_p_x32 as int, n - amount * sqrt_p_x32)
    }
}

/// Inputs on which the token_0 price update is defined: no division by zero, no overflow of
/// `Δx·√P` when removing, the removed amount below the virtual reserve, and a result that fits.
pub open spec fn next_sqrt_price_from_amount_0_defined(
    sqrt_p_x32: u64,
    liquidity: u32,
    amount: u64,
    add: bool,
) -> bool {
    let n = liquidity_x32(liquidity);
    ||| amount == 0
    ||| add && amount_0_product_fits(sqrt_p_x32, liquidity, amount) && n + amount * sqrt_p_x32 > 0
    ||| add && !amount_0_product_fits(sqrt_p_x32, liquidity, amount) && sqrt_p_x32 > 0 && n
        / (sqrt_p_x32 as int) + amount <= u64::MAX
    ||| !add && amount * sqrt_p_x32 <= u64::MAX && n > amount * sqrt_p_x32 && mul_div_ceil_value(
        n,
        sqrt_p_x32 as int,
        n - amount * sqrt_p_x32,
    ) <= u64::MAX
}

/// Next square-root price after adding (removing) `Δy` of token_1, rounded down:
/// `√P' = √P + floor(Δy·2^32 / L)` when adding and `√P' = √P - ceil(Δy·2^32 / L)` when removing.
pub open spec fn next_sqrt_price_from_amount_1(
    sqrt_p_x32: u64,
    liquidity: u32,
    amount: u64,
    add: bool,
) -> int {
    if add {
        sqrt_p_x32 + mul_div_floor_value(amount as int, 4294967296, liquidity as int)
    } else {
        sqrt_p_x32 - mul_div_ceil_value(amount as int, 4294967296, liquidity as int)
    }
}

/// Inputs on which the token_1 price update is defined: non-zero liquidity, and a result that
/// neither overflows nor reaches zero or below.
pub open spec fn next_sqrt_price_from_amount_1_defined(
    sqrt_p_x32: u64,
    liquidity: u32,
    amount: u64,
    add: bool,
) -> bool {
    &&& liquidity > 0
    &&& if add {
        next_sqrt_price_from_amount_1(sqrt_p_x32, liquidity, amount, add) <= u64::MAX
    } else {
        next_sqrt_price_from_amount_1(sqrt_p_x32, liquidity, amount, add) > 0
    }
}

/// `L * 2^32` computed by a shift.
proof fn lemma_liquidity_shift(liquidity: u32)
    ensures
        (liquidity as u64) << 32u64 == liquidity_x32(liquidity),
        liquidity_x32(liquidity) <= u64::MAX,
{
    lemma2_to64();
    lemma2_to64_rest();
    vstd::arithmetic::mul::lemma_mul_upper_bound(
        liquidity as int,
        u32::MAX as int,
        4294967296,
        4294967296,
    );
    lemma_u64_shl_is_mul(liquidity as u64, 32);
}

/// `Δ * 2^32` computed by a shift, for `Δ` that fits in 32 bits.
proof fn lemma_amount_shift(amount: u64)
    requires
        amount <= u32::MAX,
    ensures
        amount << 32u64 == amount * 4294967296,
        amount * 4294967296 <= u64::MAX,
{
    lemma2_to64();
    lemma2_to64_rest();
    vstd::arithmetic::mul::lemma_mul_upper_bound(
        amount as int,
        u32::MAX as int,
        4294967296,
        4294967296,
    );
    lemma_u64_shl_is_mul(amount, 32);
}

/// Gets the next sqrt price `√P'` given a delta of token_0, always rounding up.
///
/// Rounding up keeps the price on the side that meets the exact input or output.
///
/// # Formula
///
/// * `√P' = √P * L / (L + Δx * √P)`
/// * If `Δx * √P` overflows, use the alternate form `√P' = L / (L/√P + Δx)`
///
/// # Arguments
///
/// * `sqrt_p_x32` - The starting price `√P`
/// * `liquidity` - The amount of usable liquidity L
/// * `amount` - Delta of token 0 (Δx) to add or remove from virtual reserves
/// * `add` - Whether to add or remove the amount of token_0
pub fn get_next_sqrt_price_from_amount_0_rounding_up(
    sqrt_p_x32: u64,
    liquidity: u32,
    amount: u64,
    add: bool,
) -> (next: u64)
    requires
        next_sqrt_price_from_amount_0_defined(sqrt_p_x32, liquidity, amount, add),
    ensures
        next == next_sqrt_price_from_amount_0(sqrt_p_x32, liquidity, amount, add),
{
    // we short circuit amount == 0 because the result is otherwise not
    // guaranteed to equal the input price
    if amount == 0 {
        return sqrt_p_x32;
    }
    proof {
        lemma_liquidity_shift(liquidity);
    }
    let numerator_1 = (liquidity as u64) << RESOLUTION;  // U32.32
    if add {
        if let Some(product) = amount.checked_mul(sqrt_p_x32) {
            if let Some(denominator) = numerator_1.checked_add(product) {
                proof {
                    vstd::arithmetic::mul::lemma_mul_inequality(
                        numerator_1 as int,
                        denominator as int,
                        sqrt_p_x32 as int,
                    );
                    vstd::arithmetic::mul::lemma_mul_is_commutative(
                        denominator as int,
                        sqrt_p_x32 as int,
                    );
                    lemma_mul_div_le(
                        numerator_1 as int,
                        sqrt_p_x32 as int,
                        denominator as int,
                        sqrt_p_x32 as int,
                    );
                }
                return mul_div_ceil(numerator_1, sqrt_p_x32, denominator).unwrap();
            }
        }
        // Alternate form if overflow - `√P' = L / (L/√P + Δx)`
        div_rounding_up(numerator_1, (numerator_1 / sqrt_p_x32).checked_add(amount).unwrap())
    } else {
        // the product must not overflow, and the denominator must not underflow
        let product = amount * sqrt_p_x32;
        let denominator = numerator_1 - product;
        mul_div_ceil(numerator_1, sqrt_p_x32, denominator).unwrap()
    }
}

/// Gets the next sqrt price given a delta of token_1, always rounding down.
///
/// # Formula
///
/// * `√P' = √P + Δy / L`
///
/// # Arguments
///
/// * `sqrt_p_x32` - The starting price `√P`
/// * `liquidity` - The amount of usable liquidity L
/// * `amount` - Delta of token 1 (Δy) to add or remove from virtual reserves
/// * `add` - Whether to add or remove the amount of token_1
pub fn get_next_sqrt_price_from_amount_1_rounding_down(
    sqrt_p_x32: u64,
    liquidity: u32,
    amount: u64,
    add: bool,
) -> (next: u64)
    requires
        next_sqrt_price_from_amount_1_defined(sqrt_p_x32, liquidity, amount, add),
    ensures
        next == next_sqrt_price_from_amount_1(sqrt_p_x32, liquidity, amount, add),
{
    // if amount <= u32::MAX, amount x 2^32 does not overflow
    if add {
        // quotient - `Δy / L` as U32.32
        let quotient = if amount <= (u32::MAX as u64) {
            proof {
                lemma_amount_shift(amount);
            }
            (amount << RESOLUTION) / (liquidity as u64)
        } else {
            proof {
                vstd::arithmetic::mul::lemma_mul_nonnegative(amount as int, 4294967296);
                vstd::arithmetic::div_mod::lemma_div_pos_is_pos(
                    amount * 4294967296,
                    liquidity as int,
                );
            }
            mul_div_floor(amount, Q32, liquidity as u64).unwrap()
        };
        sqrt_p_x32.checked_add(quotient).unwrap()
    } else {
        let quotient = if amount <= (u32::MAX as u64) {
            proof {
                lemma_amount_shift(amount);
            }
            div_rounding_up(amount << RESOLUTION, liquidity as u64)
        } else {
            proof {
                vstd::arithmetic::mul::lemma_mul_nonnegative(amount as int, 4294967296);
                vstd::arithmetic::div_mod::lemma_div_pos_is_pos(
                    amount * 4294967296 + liquidity - 1,
                    liquidity as int,
                );
            }
            mul_div_ceil(amount, Q32, liquidity as u64).unwrap()
        };
        sqrt_p_x32 - quotient
    }
}

/// Gets the next sqrt price given an input amount of token_0 or token_1.
///
/// Price and liquidity must be non-zero and the next price must be within bounds.
///
/// # Arguments
///
/// * `sqrt_p_x32` - The starting price `√P`
/// * `liquidity` - The amount of usable liquidity
/// * `amount_in` - How much of token_0, or token_1, is being swapped in
/// * `zero_for_one` - Whether the amount in is token_0 or token_1
pub fn get_next_sqrt_price_from_input(
    sqrt_p_x32: u64,
    liquidity: u32,
    amount_in: u64,
    zero_for_one: bool,
) -> (next: u64)
    requires
        sqrt_p_x32 > 0,
        liquidity > 0,
        zero_for_one ==> next_sqrt_price_from_amount_0_defined(
            sqrt_p_x32,
            liquidity,
            amount_in,
            true,
        ),
        !zero_for_one ==> next_sqrt_price_from_amount_1_defined(
            sqrt_p_x32,
            liquidity,
            amount_in,
            true,
        ),
    ensures
        zero_for_one ==> next == next_sqrt_price_from_amount_0(
            sqrt_p_x32,
            liquidity,
            amount_in,
            true,
        ),
        !zero_for_one ==> next == next_sqrt_price_from_amount_1(
            sqrt_p_x32,
            liquidity,
            amount_in,
            true,
        ),
{
    // round to make sure that we don't pass the target price
    if zero_for_one {
        get_next_sqrt_price_from_amount_0_rounding_up(sqrt_p_x32, liquidity, amount_in, true)
    } else {
        get_next_sqrt_price_from_amount_1_rounding_down(sqrt_p_x32, liquidity, amount_in, true)
    }
}

/// Gets the next sqrt price given an output amount of token_0 or token_1.
///
/// Price and liquidity must be non-zero and the next price must be within bounds.
///
/// # Arguments
///
/// * `sqrt_p_x32` - The starting price `√P`
/// * `liquidity` - The amount of usable liquidity
/// * `amount_out` - How much of token_0, or token_1, is being swapped out
/// * `zero_for_one` - Whether the amount out is token_0 or token_1
pub fn get_next_sqrt_price_from_output(
    sqrt_p_x32: u64,
    liquidity: u32,
    amount_out: u64,
    zero_for_one: bool,
) -> (next: u64)
    requires
        sqrt_p_x32 > 0,
        liquidity > 0,
        zero_for_one ==> next_sqrt_price_from_amount_1_defined(
            sqrt_p_x32,
            liquidity,
            amount_out,
            false,
        ),
        !zero_for_one ==> next_sqrt_price_from_amount_0_defined(
            sqrt_p_x32,
            liquidity,
            amount_out,
            false,
        ),
    ensures
        zero_for_one ==> next == next_sqrt_price_from_amount_1(
            sqrt_p_x32,
            liquidity,
            amount_out,
            false,
        ),
        !zero_for_one ==> next == next_sqrt_price_from_amount_0(
            sqrt_p_x32,
            liquidity,
            amount_out,
            false,
        ),
{
    if zero_for_one {
        get_next_sqrt_price_from_amount_1_rounding_down(sqrt_p_x32, liquidity, amount_out, false)
    } else {
        get_next_sqrt_price_from_amount_0_rounding_up(sqrt_p_x32, liquidity, amount_out, false)
    }
}

/// `Δx = L·2^32 · (√P_upper - √P_lower) / √P_upper / √P_lower`, with each division rounded up
/// (`round_up`) or down, where the two prices are taken in increasing order.
pub open spec fn amount_0_delta(
    sqrt_ratio_a_x32: u64,
    sqrt_ratio_b_x32: u64,
    liquidity: u32,
    round_up: bool,
) -> int {
    let lower = if sqrt_ratio_a_x32 <= sqrt_ratio_b_x32 { sqrt_ratio_a_x32 } else { sqrt_ratio_b_x32 };
    let upper = if sqrt_ratio_a_x32 <= sqrt_ratio_b_x32 { sqrt_ratio_b_x32 } else { sqrt_ratio_a_x32 };
    let n = liquidity_x32(liquidity);
    if round_up {
        div_ceil(mul_div_ceil_value(n, upper - lower, upper as int), lower as int)
    } else {
        mul_div_floor_value(n, upper - lower, upper as int) / (lower as int)
    }
}

/// `Δy = L · (√P_upper - √P_lower) / 2^32`, rounded up (`round_up`) or down.
pub open spec fn amount_1_delta(
    sqrt_ratio_a_x32: u64,
    sqrt_ratio_b_x32: u64,
    liquidity: u32,
    round_up: bool,
) -> int {
    let lower = if sqrt_ratio_a_x32 <= sqrt_ratio_b_x32 { sqrt_ratio_a_x32 } else { sqrt_ratio_b_x32 };
    let upper = if sqrt_ratio_a_x32 <= sqrt_ratio_b_x32 { sqrt_ratio_b_x32 } else { sqrt_ratio_a_x32 };
    if round_up {
        mul_div_ceil_value(liquidity as int, upper - lower, 4294967296)
    } else {
        mul_div_floor_value(liquidity as int, upper - lower, 4294967296)
    }
}

/// The token_1 amounts for a liquidity between two prices: rounded down at most rounded up, at
/// most `liquidity * 2^32`.
pub proof fn lemma_amount_1_bounds(sqrt_ratio_a_x32: u64, sqrt_ratio_b_x32: u64, liquidity: u32)
    ensures
        0 <= amount_1_delta(sqrt_ratio_a_x32, sqrt_ratio_b_x32, liquidity, false) <= amount_1_delta(
            sqrt_ratio_a_x32,
            sqrt_ratio_b_x32,
            liquidity,
            true,
        ) <= liquidity * 4294967296,
        liquidity * 4294967296 <= u64::MAX,
{
    let lower = if sqrt_ratio_a_x32 <= sqrt_ratio_b_x32 { sqrt_ratio_a_x32 } else { sqrt_ratio_b_x32 } as int;
    let upper = if sqrt_ratio_a_x32 <= sqrt_ratio_b_x32 { sqrt_ratio_b_x32 } else { sqrt_ratio_a_x32 } as int;
    let l = liquidity as int;
    vstd::arithmetic::mul::lemma_mul_nonnegative(l, upper - lower);
    vstd::arithmetic::mul::lemma_mul_inequality(upper - lower, 0x10000000000000000, l);
    vstd::arithmetic::mul::lemma_mul_is_commutative(upper - lower, l);
    assert(0x10000000000000000 * l == 4294967296 * (l * 4294967296)) by (nonlinear_arith);
    lemma_mul_div_le(l, upper - lower, 4294967296, l * 4294967296);
    assert(l * 4294967296 <= u64::MAX) by (nonlinear_arith)
        requires
            l <= u32::MAX,
    ;
}

/// Rounding favours the pool: the amounts of either token owed for added liquidity, rounded up,
/// are at least those paid out for the same liquidity removed, rounded down; neither exceeds
/// `liquidity * 2^32`.
pub proof fn lemma_amount_rounding(sqrt_ratio_a_x32: u64, sqrt_ratio_b_x32: u64, liquidity: u32)
    requires
        sqrt_ratio_a_x32 > 0,
        sqrt_ratio_b_x32 > 0,
    ensures
        0 <= amount_0_delta(sqrt_ratio_a_x32, sqrt_ratio_b_x32, liquidity, false) <= amount_0_delta(
            sqrt_ratio_a_x32,
            sqrt_ratio_b_x32,
            liquidity,
            true,
        ) <= liquidity * 4294967296,
        0 <= amount_1_delta(sqrt_ratio_a_x32, sqrt_ratio_b_x32, liquidity, false) <= amount_1_delta(
            sqrt_ratio_a_x32,
            sqrt_ratio_b_x32,
            liquidity,
            true,
        ) <= liquidity * 4294967296,
        liquidity * 4294967296 <= u64::MAX,
{
    let lower = if sqrt_ratio_a_x32 <= sqrt_ratio_b_x32 { sqrt_ratio_a_x32 } else { sqrt_ratio_b_x32 } as int;
    let upper = if sqrt_ratio_a_x32 <= sqrt_ratio_b_x32 { sqrt_ratio_b_x32 } else { sqrt_ratio_a_x32 } as int;
    let n = liquidity_x32(liquidity);
    vstd::arithmetic::mul::lemma_mul_nonnegative(n, upper - lower);
    vstd::arithmetic::div_mod::lemma_div_pos_is_pos(n * (upper - lower), upper);
    vstd::arithmetic::div_mod::lemma_div_is_ordered(n * (upper - lower), n * (upper - lower) + upper - 1, upper);
    let f = mul_div_floor_value(n, upper - lower, upper);
    let c = mul_div_ceil_value(n, upper - lower, upper);
    vstd::arithmetic::div_mod::lemma_div_pos_is_pos(f, lower);
    vstd::arithmetic::div_mod::lemma_div_is_ordered(f, c + lower - 1, lower);
    lemma_amount_1_bounds(sqrt_ratio_a_x32, sqrt_ratio_b_x32, liquidity);
    // upper bound of the token_0 amount: at most the shifted liquidity
    lemma_liquidity_shift(liquidity);
    vstd::arithmetic::mul::lemma_mul_inequality(upper - lower, upper, n);
    vstd::arithmetic::mul::lemma_mul_is_commutative(upper - lower, n);
    vstd::arithmetic::mul::lemma_mul_is_commutative(upper, n);
    lemma_mul_div_le(n, upper - lower, upper, n);
    assert(c - 1 < lower * c + 0) by (nonlinear_arith)
        requires
            c >= 0,
            lower >= 1,
    ;
    vstd::arithmetic::mul::lemma_mul_is_distributive_add(lower, c, 1);
    vstd::arithmetic::div_mod::lemma_multiply_divide_lt(c + lower - 1, lower, c + 1);
}

/// Gets the amount_0 delta between two prices, for given amount of liquidity (formula 6.30).
///
/// # Formula
///
/// * `Δx = L * (1 / √P_lower - 1 / √P_upper)`
/// * i.e. `L * (√P_upper - √P_lower) / (√P_upper * √P_lower)`
///
/// Both prices must be non-zero.
///
/// # Arguments
///
/// * `sqrt_ratio_a_x32` - A sqrt price
/// * `sqrt_ratio_b_x32` - Another sqrt price
/// * `liquidity` - The amount of usable liquidity
/// * `round_up`- Whether to round the amount up or down
pub fn get_amount_0_delta_unsigned(
    sqrt_ratio_a_x32: u64,
    sqrt_ratio_b_x32: u64,
    liquidity: u32,
    round_up: bool,
) -> (amount_0: u64)
    requires
        sqrt_ratio_a_x32 > 0,
        sqrt_ratio_b_x32 > 0,
    ensures
        amount_0 == amount_0_delta(sqrt_ratio_a_x32, sqrt_ratio_b_x32, liquidity, round_up),
{
    let mut sqrt_ratio_a_x32 = sqrt_ratio_a_x32;
    let mut sqrt_ratio_b_x32 = sqrt_ratio_b_x32;
    // sqrt_ratio_a_x32 should hold the smaller value
    if sqrt_ratio_a_x32 > sqrt_ratio_b_x32 {
        std::mem::swap(&mut sqrt_ratio_a_x32, &mut sqrt_ratio_b_x32);
    }
    proof {
        lemma_liquidity_shift(liquidity);
    }
    let numerator_1 = (liquidity as u64) << RESOLUTION;
    let numerator_2 = sqrt_ratio_b_x32 - sqrt_ratio_a_x32;
    proof {
        vstd::arithmetic::mul::lemma_mul_inequality(
            numerator_2 as int,
            sqrt_ratio_b_x32 as int,
            numerator_1 as int,
        );
        vstd::arithmetic::mul::lemma_mul_is_commutative(numerator_2 as int, numerator_1 as int);
        vstd::arithmetic::mul::lemma_mul_is_commutative(
            sqrt_ratio_b_x32 as int,
            numerator_1 as int,
        );
        lemma_mul_div_le(
            numerator_1 as int,
            numerator_2 as int,
            sqrt_ratio_b_x32 as int,
            numerator_1 as int,
        );
    }
    if round_up {
        div_rounding_up(
            mul_div_ceil(numerator_1, numerator_2, sqrt_ratio_b_x32).unwrap(),
            sqrt_ratio_a_x32,
        )
    } else {
        mul_div_floor(numerator_1, numerator_2, sqrt_ratio_b_x32).unwrap() / sqrt_ratio_a_x32
    }
}

/// Gets the amount_1 delta between two prices, for given amount of liquidity (formula 6.30).
///
/// # Formula
///
/// * `Δy = L (√P_upper - √P_lower)`
///
/// # Arguments
///
/// * `sqrt_ratio_a_x32` - A sqrt price
/// * `sqrt_ratio_b_x32` - Another sqrt price
/// * `liquidity` - The amount of usable liquidity
/// * `round_up`- Whether to round the amount up or down
pub fn get_amount_1_delta_unsigned(
    sqrt_ratio_a_x32: u64,
    sqrt_ratio_b_x32: u64,
    liquidity: u32,
    round_up: bool,
) -> (amount_1: u64)
    ensures
        amount_1 == amount_1_delta(sqrt_ratio_a_x32, sqrt_ratio_b_x32, liquidity, round_up),
{
    let mut sqrt_ratio_a_x32 = sqrt_ratio_a_x32;
    let mut sqrt_ratio_b_x32 = sqrt_ratio_b_x32;
    // sqrt_ratio_a_x32 should hold the smaller value
    if sqrt_ratio_a_x32 > sqrt_ratio_b_x32 {
        std::mem::swap(&mut sqrt_ratio_a_x32, &mut sqrt_ratio_b_x32);
    }
    let diff = sqrt_ratio_b_x32 - sqrt_ratio_a_x32;
    proof {
        vstd::arithmetic::mul::lemma_mul_upper_bound(
            liquidity as int,
            4294967296,
            diff as int,
            u64::MAX as int,
        );
        vstd::arithmetic::mul::lemma_mul_is_commutative(4294967296, u64::MAX as int);
        lemma_mul_div_le(liquidity as int, diff as int, 4294967296, u64::MAX as int);
    }
    if round_up {
        mul_div_ceil(liquidity as u64, diff, Q32)
    } else {
        mul_div_floor(liquidity as u64, diff, Q32)
    }.unwrap()
}

/// The signed token amount for a signed liquidity change: the unsigned amount rounded up for
/// added liquidity, and the negated amount rounded down for removed liquidity, after the
/// conversion of the unsigned amount to `i64`.
pub open spec fn signed_delta(liquidity: i32, unsigned_up: int, unsigned_down: int) -> int {
    if liquidity < 0 {
        -((unsigned_down as u64) as i64)
    } else {
        (unsigned_up as u64) as i64 as int
    }
}

/// Helper function to get signed token_0 delta between two prices,
/// for the given change in liquidity.
///
/// Added liquidity rounds the owed amount up; removed liquidity rounds it down and negates it.
///
/// # Arguments
///
/// * `sqrt_ratio_a_x32` - A sqrt price
/// * `sqrt_ratio_b_x32` - Another sqrt price
/// * `liquidity` - The change in liquidity for which to compute amount_0 delta
pub fn get_amount_0_delta_signed(
    sqrt_ratio_a_x32: u64,
    sqrt_ratio_b_x32: u64,
    liquidity: i32,
) -> (amount_0: i64)
    requires
        sqrt_ratio_a_x32 > 0,
        sqrt_ratio_b_x32 > 0,
        liquidity > i32::MIN,
    ensures
        amount_0 == signed_delta(
            liquidity,
            amount_0_delta(sqrt_ratio_a_x32, sqrt_ratio_b_x32, liquidity as u32, true),
            amount_0_delta(sqrt_ratio_a_x32, sqrt_ratio_b_x32, (-liquidity) as u32, false),
        ),
{
    if liquidity < 0 {
        proof {
            lemma_amount_rounding(sqrt_ratio_a_x32, sqrt_ratio_b_x32, (-liquidity) as u32);
        }
        -(get_amount_0_delta_unsigned(sqrt_ratio_a_x32, sqrt_ratio_b_x32, (-liquidity) as u32, false)
            as i64)
    } else {
        get_amount_0_delta_unsigned(sqrt_ratio_a_x32, sqrt_ratio_b_x32, liquidity as u32, true)
            as i64
    }
}

/// Helper function to get signed token_1 delta between two prices,
/// for the given change in liquidity.
///
/// Added liquidity rounds the owed amount up; removed liquidity rounds it down and negates it.
///
/// # Arguments
///
/// * `sqrt_ratio_a_x32` - A sqrt price
/// * `sqrt_ratio_b_x32` - Another sqrt price
/// * `liquidity` - The change in liquidity for which to compute amount_1 delta
pub fn get_amount_1_delta_signed(
    sqrt_ratio_a_x32: u64,
    sqrt_ratio_b_x32: u64,
    liquidity: i32,
) -> (amount_1: i64)
    requires
        liquidity > i32::MIN,
    ensures
        amount_1 == signed_delta(
            liquidity,
            amount_1_delta(sqrt_ratio_a_x32, sqrt_ratio_b_x32, liquidity as u32, true),
            amount_1_delta(sqrt_ratio_a_x32, sqrt_ratio_b_x32, (-liquidity) as u32, false),
        ),
{
    if liquidity < 0 {
        proof {
            lemma_amount_1_bounds(sqrt_ratio_a_x32, sqrt_ratio_b_x32, (-liquidity) as u32);
        }
        -(get_amount_1_delta_unsigned(sqrt_ratio_a_x32, sqrt_ratio_b_x32, (-liquidity) as u32, false)
            as i64)
    } else {
        get_amount_1_delta_unsigned(sqrt_ratio_a_x32, sqrt_ratio_b_x32, liquidity as u32, true)
            as i64
    }
}

/// Floor division: `q = floor(a / d)` is the one `q` with `q * d <= a < (q + 1) * d`.
proof fn lemma_floor_div_bounds(a: int, d: int)
    requires
        a >= 0,
        d > 0,
    ensures
        (a / d) * d <= a < (a / d + 1) * d,
        a / d >= 0,
{
    vstd::arithmetic::div_mod::lemma_fundamental_div_mod(a, d);
    vstd::arithmetic::div_mod::lemma_mod_bound(a, d);
    vstd::arithmetic::div_mod::lemma_div_pos_is_pos(a, d);
    let q = a / d;
    let r = a % d;
    assert(q * d <= a < (q + 1) * d) by (nonlinear_arith)
        requires
            a == d * q + r,
            0 <= r < d,
    ;
}

/// Ceiling division: `c = ceil(a / d)` is the one `c` with `(c - 1) * d < a <= c * d`.
proof fn lemma_ceil_div_bounds(a: int, d: int)
    requires
        a >= 0,
        d > 0,
    ensures
        (div_ceil(a, d) - 1) * d < a <= div_ceil(a, d) * d,
        div_ceil(a, d) >= 0,
{
    lemma_floor_div_bounds(a + d - 1, d);
    let c = div_ceil(a, d);
    assert((c - 1) * d < a <= c * d) by (nonlinear_arith)
        requires
            c * d <= a + d - 1 < (c + 1) * d,
    ;
}

/// An exact token_1 input raises the price by `Δy / L` rounded down, and an exact token_1
/// output lowers it by `Δy / L` rounded up, in Q32.32, whatever the amount:
/// `(√P' - √P) * L <= Δy * 2^32 < (√P' - √P + 1) * L` when adding and
/// `(√P - √P' - 1) * L < Δy * 2^32 <= (√P - √P') * L` when removing.
pub proof fn lemma_next_sqrt_price_from_amount_1_moves_by_quotient(
    sqrt_p_x32: u64,
    liquidity: u32,
    amount: u64,
)
    requires
        liquidity > 0,
    ensures
        ({
            let rise = next_sqrt_price_from_amount_1(sqrt_p_x32, liquidity, amount, true)
                - sqrt_p_x32;
            rise * liquidity <= amount * 4294967296 < (rise + 1) * liquidity
        }),
        ({
            let fall = sqrt_p_x32 - next_sqrt_price_from_amount_1(
                sqrt_p_x32,
                liquidity,
                amount,
                false,
            );
            (fall - 1) * liquidity < amount * 4294967296 <= fall * liquidity
        }),
{
    vstd::arithmetic::mul::lemma_mul_nonnegative(amount as int, 4294967296);
    lemma_floor_div_bounds(amount * 4294967296, liquidity as int);
    lemma_ceil_div_bounds(amount * 4294967296, liquidity as int);
}

/// The token_1 amount between two prices is `L * |√P_b - √P_a| / 2^32`, rounded as asked:
/// rounded down, `Δy * 2^32 <= L * diff < (Δy + 1) * 2^32`; rounded up,
/// `(Δy - 1) * 2^32 < L * diff <= Δy * 2^32`.
pub proof fn lemma_amount_1_delta_is_quotient(
    sqrt_ratio_a_x32: u64,
    sqrt_ratio_b_x32: u64,
    liquidity: u32,
)
    ensures
        ({
            let diff = if sqrt_ratio_a_x32 <= sqrt_ratio_b_x32 {
                sqrt_ratio_b_x32 - sqrt_ratio_a_x32
            } else {
                sqrt_ratio_a_x32 - sqrt_ratio_b_x32
            };
            let down = amount_1_delta(sqrt_ratio_a_x32, sqrt_ratio_b_x32, liquidity, false);
            let up = amount_1_delta(sqrt_ratio_a_x32, sqrt_ratio_b_x32, liquidity, true);
            &&& down * 4294967296 <= liquidity * diff < (down + 1) * 4294967296
            &&& (up - 1) * 4294967296 < liquidity * diff <= up * 4294967296
        }),
{
    let diff = if sqrt_ratio_a_x32 <= sqrt_ratio_b_x32 {
        sqrt_ratio_b_x32 - sqrt_ratio_a_x32
    } else {
        sqrt_ratio_a_x32 - sqrt_ratio_b_x32
    };
    vstd::arithmetic::mul::lemma_mul_nonnegative(liquidity as int, diff);
    lemma_floor_div_bounds(liquidity * diff, 4294967296);
    lemma_ceil_div_bounds(liquidity * diff, 4294967296);
}

/// The token_0 amount between two non-zero prices is `L * 2^32 * |√P_b - √P_a| / (√P_a * √P_b)`,
/// rounded as asked: rounded down, `Δx * p <= L * 2^32 * diff < (Δx + 1) * p`; rounded up,
/// `(Δx - 1) * p < L * 2^32 * diff <= Δx * p`, with `p = √P_a * √P_b`.
pub proof fn lemma_amount_0_delta_is_quotient(
    sqrt_ratio_a_x32: u64,
    sqrt_ratio_b_x32: u64,
    liquidity: u32,
)
    requires
        sqrt_ratio_a_x32 > 0,
        sqrt_ratio_b_x32 > 0,
    ensures
        ({
            let diff = if sqrt_ratio_a_x32 <= sqrt_ratio_b_x32 {
                sqrt_ratio_b_x32 - sqrt_ratio_a_x32
            } else {
                sqrt_ratio_a_x32 - sqrt_ratio_b_x32
            };
            let p = sqrt_ratio_a_x32 * sqrt_ratio_b_x32;
            let x = liquidity * 4294967296 * diff;
            let down = amount_0_delta(sqrt_ratio_a_x32, sqrt_ratio_b_x32, liquidity, false);
            let up = amount_0_delta(sqrt_ratio_a_x32, sqrt_ratio_b_x32, liquidity, true);
            &&& down * p <= x < (down + 1) * p
            &&& (up - 1) * p < x <= up * p
        }),
{
    let lower = (if sqrt_ratio_a_x32 <= sqrt_ratio_b_x32 {
        sqrt_ratio_a_x32
    } else {
        sqrt_ratio_b_x32
    }) as int;
    let upper = (if sqrt_ratio_a_x32 <= sqrt_ratio_b_x32 {
        sqrt_ratio_b_x32
    } else {
        sqrt_ratio_a_x32
    }) as int;
    let n = liquidity_x32(liquidity);
    let x = n * (upper - lower);
    assert(x == liquidity * 4294967296 * (upper - lower)) by (nonlinear_arith)
        requires
            n == liquidity * 4294967296,
            x == n * (upper - lower),
    ;
    assert(sqrt_ratio_a_x32 * sqrt_ratio_b_x32 == upper * lower) by (nonlinear_arith)
        requires
            (upper == sqrt_ratio_a_x32 && lower == sqrt_ratio_b_x32) || (upper == sqrt_ratio_b_x32
                && lower == sqrt_ratio_a_x32),
    ;
    vstd::arithmetic::mul::lemma_mul_nonnegative(n, upper - lower);
    // rounded down: floor(floor(x / upper) / lower)
    lemma_floor_div_bounds(x, upper);
    let f = x / upper;
    lemma_floor_div_bounds(f, lower);
    let down = f / lower;
    assert(down * (upper * lower) <= x < (down + 1) * (upper * lower)) by (nonlinear_arith)
        requires
            f * upper <= x < (f + 1) * upper,
            down * lower <= f < (down + 1) * lower,
            upper > 0,
            lower > 0,
    ;
    // rounded up: ceil(ceil(x / upper) / lower)
    lemma_ceil_div_bounds(x, upper);
    let c = div_ceil(x, upper);
    lemma_ceil_div_bounds(c, lower);
    let up = div_ceil(c, lower);
    assert((up - 1) * (upper * lower) < x <= up * (upper * lower)) by (nonlinear_arith)
        requires
            (c - 1) * upper < x <= c * upper,
            (up - 1) * lower < c <= up * lower,
            upper > 0,
            lower > 0,
    ;
}

/// An exact token_0 input or output moves the price to `L·2^32·√P / (L·2^32 ± Δx·√P)` rounded
/// up, so that the price never moves further than the exact formula asks: with
/// `n = L·2^32`, adding gives `√P' * (n + Δx·√P) >= n·√P`, with `(√P' - 1) * (n + Δx·√P) < n·√P`
/// whenever the exact form fits in a `u64`; removing (below the virtual reserve) gives
/// `(√P' - 1) * (n - Δx·√P) < n·√P <= √P' * (n - Δx·√P)`.
pub proof fn lemma_next_sqrt_price_from_amount_0_rounds_up(
    sqrt_p_x32: u64,
    liquidity: u32,
    amount: u64,
)
    requires
        sqrt_p_x32 > 0,
        liquidity > 0,
    ensures
        ({
            let n = liquidity_x32(liquidity);
            let next = next_sqrt_price_from_amount_0(sqrt_p_x32, liquidity, amount, true);
            &&& next <= sqrt_p_x32
            &&& next * (n + amount * sqrt_p_x32) >= n * sqrt_p_x32
            &&& amount_0_product_fits(sqrt_p_x32, liquidity, amount) ==> (next - 1) * (n + amount
                * sqrt_p_x32) < n * sqrt_p_x32
            &&& !amount_0_product_fits(sqrt_p_x32, liquidity, amount) ==> (next - 1) * (n + amount
                * sqrt_p_x32 - sqrt_p_x32) < n * sqrt_p_x32
        }),
        ({
            let n = liquidity_x32(liquidity);
            let next = next_sqrt_price_from_amount_0(sqrt_p_x32, liquidity, amount, false);
            n > amount * sqrt_p_x32 ==> {
                &&& next >= sqrt_p_x32
                &&& (next - 1) * (n - amount * sqrt_p_x32) < n * sqrt_p_x32 <= next * (n - amount
                    * sqrt_p_x32)
            }
        }),
{
    let n = liquidity_x32(liquidity);
    let p = sqrt_p_x32 as int;
    let a = amount as int;
    vstd::arithmetic::mul::lemma_mul_nonnegative(a, p);
    vstd::arithmetic::mul::lemma_mul_nonnegative(n, p);
    if amount == 0 {
        assert(p * (n + a * p) >= n * p && (p - 1) * (n + a * p) < n * p) by (nonlinear_arith)
            requires
                a == 0,
                n > 0,
                p > 0,
        ;
        assert(p * (n - a * p) >= n * p && (p - 1) * (n - a * p) < n * p) by (nonlinear_arith)
            requires
                a == 0,
                n > 0,
                p > 0,
        ;
    } else {
        if amount_0_product_fits(sqrt_p_x32, liquidity, amount) {
            lemma_ceil_div_bounds(n * p, n + a * p);
            let next = div_ceil(n * p, n + a * p);
            if next > p {
                assert(p * (n + a * p) <= (next - 1) * (n + a * p)) by (nonlinear_arith)
                    requires
                        next - 1 >= p,
                        n + a * p >= 0,
                ;
                assert(p * (n + a * p) >= n * p) by (nonlinear_arith)
                    requires
                        a * p >= 0,
                        p > 0,
                ;
            }
        } else {
            lemma_floor_div_bounds(n, p);
            let q = n / p;
            let d = q + a;
            lemma_ceil_div_bounds(n, d);
            let next = div_ceil(n, d);
            assert(next * (n + a * p) >= n * p) by (nonlinear_arith)
                requires
                    q * p <= n,
                    n <= next * d,
                    d == q + a,
                    next >= 0,
                    p > 0,
                    a >= 0,
            ;
            assert(a * p >= p) by (nonlinear_arith)
                requires
                    a >= 1,
                    p > 0,
            ;
            assert(d * p == q * p + a * p) by (nonlinear_arith)
                requires
                    d == q + a,
            ;
            assert(q * p > n - p) by (nonlinear_arith)
                requires
                    n < (q + 1) * p,
            ;
            if next >= 1 {
                assert((next - 1) * d * p < n * p) by (nonlinear_arith)
                    requires
                        (next - 1) * d < n,
                        p > 0,
                ;
                assert((next - 1) * (n + a * p - p) <= (next - 1) * d * p) by (nonlinear_arith)
                    requires
                        n + a * p - p < d * p,
                        next - 1 >= 0,
                ;
            } else {
                assert((next - 1) * (n + a * p - p) <= 0) by (nonlinear_arith)
                    requires
                        next == 0,
                        n + a * p - p >= 0,
                ;
                assert(n * p > 0) by (nonlinear_arith)
                    requires
                        n > 0,
                        p > 0,
                ;
            }
            assert(next <= p) by (nonlinear_arith)
                requires
                    (next - 1) * d < n,
                    n < (q + 1) * p,
                    d == q + a,
                    a >= 1,
                    q >= 0,
                    p > 0,
            ;
        }
        if n > a * p {
            lemma_ceil_div_bounds(n * p, n - a * p);
            let next = div_ceil(n * p, n - a * p);
            assert(next >= p) by (nonlinear_arith)
                requires
                    n * p <= next * (n - a * p),
                    n - a * p > 0,
                    a * p >= 0,
                    p > 0,
            ;
        }
    }
}

/// The signed token amounts for a liquidity change `ΔL` are the exact amounts for `|ΔL|` rounded
/// in the pool's favour: owed amounts for added liquidity are rounded up and non-negative, and
/// paid-out amounts for removed liquidity are rounded down and non-positive.  With
/// `m = |ΔL|`, `diff = |√P_b - √P_a|`, `p = √P_a * √P_b`: for token_1,
/// `(s - 1) * 2^32 < m * diff <= s * 2^32` when adding and `-s * 2^32 <= m * diff < (-s + 1) * 2^32`
/// when removing; for token_0 the same with `m * 2^32 * diff` over `p`.
pub proof fn lemma_signed_amounts_round_for_the_pool(
    sqrt_ratio_a_x32: u64,
    sqrt_ratio_b_x32: u64,
    liquidity: i32,
)
    requires
        sqrt_ratio_a_x32 > 0,
        sqrt_ratio_b_x32 > 0,
        liquidity > i32::MIN,
    ensures
        ({
            let m = if liquidity < 0 { -liquidity } else { liquidity as int };
            let diff = if sqrt_ratio_a_x32 <= sqrt_ratio_b_x32 {
                sqrt_ratio_b_x32 - sqrt_ratio_a_x32
            } else {
                sqrt_ratio_a_x32 - sqrt_ratio_b_x32
            };
            let s1 = signed_delta(
                liquidity,
                amount_1_delta(sqrt_ratio_a_x32, sqrt_ratio_b_x32, liquidity as u32, true),
                amount_1_delta(sqrt_ratio_a_x32, sqrt_ratio_b_x32, (-liquidity) as u32, false),
            );
            &&& liquidity >= 0 ==> s1 >= 0 && (s1 - 1) * 4294967296 < m * diff <= s1 * 4294967296
            &&& liquidity < 0 ==> s1 <= 0 && -s1 * 4294967296 <= m * diff < (-s1 + 1) * 4294967296
        }),
        ({
            let m = if liquidity < 0 { -liquidity } else { liquidity as int };
            let diff = if sqrt_ratio_a_x32 <= sqrt_ratio_b_x32 {
                sqrt_ratio_b_x32 - sqrt_ratio_a_x32
            } else {
                sqrt_ratio_a_x32 - sqrt_ratio_b_x32
            };
            let p = sqrt_ratio_a_x32 * sqrt_ratio_b_x32;
            let x = m * 4294967296 * diff;
            let s0 = signed_delta(
                liquidity,
                amount_0_delta(sqrt_ratio_a_x32, sqrt_ratio_b_x32, liquidity as u32, true),
                amount_0_delta(sqrt_ratio_a_x32, sqrt_ratio_b_x32, (-liquidity) as u32, false),
            );
            &&& liquidity >= 0 ==> s0 >= 0 && (s0 - 1) * p < x <= s0 * p
            &&& liquidity < 0 ==> s0 <= 0 && -s0 * p <= x < (-s0 + 1) * p
        }),
{
    let u = if liquidity < 0 { (-liquidity) as u32 } else { liquidity as u32 };
    assert(u as int == if liquidity < 0 { -liquidity } else { liquidity as int });
    lemma_amount_rounding(sqrt_ratio_a_x32, sqrt_ratio_b_x32, u);
    lemma_amount_1_delta_is_quotient(sqrt_ratio_a_x32, sqrt_ratio_b_x32, u);
    lemma_amount_0_delta_is_quotient(sqrt_ratio_a_x32, sqrt_ratio_b_x32, u);
    assert(u * 4294967296 < 0x8000000000000000) by (nonlinear_arith)
        requires
            u <= i32::MAX,
    ;
}

} // verus!
