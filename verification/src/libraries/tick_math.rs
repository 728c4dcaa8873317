//! Conversion between ticks and Q32.32 square-root prices, computed with 128-bit intermediates.
//!
//! Performs power and log calculations in a gas efficient manner.
use crate::error::ErrorCode;
use crate::libraries::bit_math::{
    floor_log2, is_most_significant_bit, lemma_msb_is_floor_log2, most_significant_bit,
};
use crate::libraries::tick_order::lemma_greatest_tick_unique;
use crate::libraries::unsafe_math::div_ceil;
use vstd::arithmetic::power2::*;
use vstd::bits::*;
use vstd::prelude::*;

verus! {

/// The minimum tick.
pub const MIN_TICK: i32 = -221818;

/// The maximum tick.
pub const MAX_TICK: i32 = 221818;

/// The smallest square-root price accepted by `get_tick_at_sqrt_ratio`, `2^16`.
pub const MIN_SQRT_RATIO: u64 = 65536;

/// The exclusive upper bound of square-root prices accepted by `get_tick_at_sqrt_ratio`, `2^48`.
pub const MAX_SQRT_RATIO: u64 = 281474976710656;

/// The magic factor `2^64 / 1.0001^(2^(i - 1))` for bit `i` of the tick, rounded to 64 bits.
pub open spec fn magic_factor_x64(i: int) -> int {
    if i == 1 {
        0xfff97272373d4000
    } else if i == 2 {
        0xfff2e50f5f657000
    } else if i == 3 {
        0xffe5caca7e10f000
    } else if i == 4 {
        0xffcb9843d60f7000
    } else if i == 5 {
        0xff973b41fa98e800
    } else if i == 6 {
        0xff2ea16466c9b000
    } else if i == 7 {
        0xfe5dee046a9a3800
    } else if i == 8 {
        0xfcbe86c7900bb000
    } else if i == 9 {
        0xf987a7253ac65800
    } else if i == 10 {
        0xf3392b0822bb6000
    } else if i == 11 {
        0xe7159475a2caf000
    } else if i == 12 {
        0xd097f3bdfd2f2000
    } else if i == 13 {
        0xa9f746462d9f8000
    } else if i == 14 {
        0x70d869a156f31c00
    } else if i == 15 {
        0x31be135f97ed3200
    } else if i == 16 {
        0x9aa508b5b85a500
    } else if i == 17 {
        0x5d6af8dedc582c
    } else {
        0
    }
}

/// The Q64.64 value of `1.0001^(-t/2)` for the low `i + 1` bits of `t = abs_tick`: starting from
/// one (or the factor of bit 0), each set bit `j <= i` multiplies by its magic factor and
/// truncates back to 64 fractional bits.
pub open spec fn ratio_x64_upto(abs_tick: u128, i: nat) -> int
    decreases i,
{
    if i == 0 {
        if abs_tick & 1 != 0 {
            0xfffcb933bd6fb800
        } else {
            0x10000000000000000
        }
    } else {
        let r = ratio_x64_upto(abs_tick, (i - 1) as nat);
        if abs_tick & (1u128 << (i as u128)) != 0 {
            r * magic_factor_x64(i as int) / 0x10000000000000000
        } else {
            r
        }
    }
}

/// `|tick|`.
pub open spec fn abs_tick(tick: i32) -> int {
    if tick < 0 {
        -tick
    } else {
        tick as int
    }
}

/// The Q32.32 square-root price at `tick`: the Q64.64 product of the magic factors of the bits
/// of `|tick|`, inverted for positive ticks, then rounded up to 32 fractional bits.
pub open spec fn sqrt_ratio_at_tick_value(tick: i32) -> int {
    let r = ratio_x64_upto(abs_tick(tick) as u128, 17);
    let ratio = if tick > 0 {
        u128::MAX as int / r
    } else {
        r
    };
    div_ceil(ratio, 4294967296)
}

/// The result of `get_sqrt_ratio_at_tick`: error `T` when `|tick| > MAX_TICK`, else the price.
pub open spec fn sqrt_ratio_at_tick_result(tick: i32) -> Result<u64, ErrorCode> {
    if abs_tick(tick) > MAX_TICK {
        Err(ErrorCode::T)
    } else {
        Ok(sqrt_ratio_at_tick_value(tick) as u64)
    }
}

/// Bounds of one factor of the product: a ratio in `[b, 2^64]` times a factor below `2^64`
/// does not grow, and stays at least the bound `b2` obtained by applying the factor to `b`.
proof fn lemma_ratio_bound_x64(r: int, f: int, b: int, b2: int)
    requires
        0 < f < 0x10000000000000000,
        0 < b <= r <= 0x10000000000000000,
        b2 == b * f / 0x10000000000000000,
    ensures
        b2 <= r * f / 0x10000000000000000 <= r,
        b2 <= b,
{
    let q = 0x10000000000000000int;
    vstd::arithmetic::mul::lemma_mul_inequality(b, r, f);
    vstd::arithmetic::div_mod::lemma_div_is_ordered(b * f, r * f, q);
    vstd::arithmetic::mul::lemma_mul_inequality(f, q, r);
    vstd::arithmetic::mul::lemma_mul_is_commutative(r, q);
    vstd::arithmetic::mul::lemma_mul_is_commutative(f, r);
    vstd::arithmetic::div_mod::lemma_multiply_divide_le(r * f, q, r);
    vstd::arithmetic::mul::lemma_mul_inequality(f, q, b);
    vstd::arithmetic::mul::lemma_mul_is_commutative(b, q);
    vstd::arithmetic::mul::lemma_mul_is_commutative(f, b);
    vstd::arithmetic::div_mod::lemma_multiply_divide_le(b * f, q, b);
}

/// Every tick in range has a square-root price of at least one.
pub proof fn lemma_sqrt_ratio_at_tick_positive(tick: i32)
    requires
        abs_tick(tick) <= MAX_TICK,
    ensures
        1 <= sqrt_ratio_at_tick_value(tick) <= u64::MAX,
{
    let t = abs_tick(tick) as u128;
    assert(0xfffcb933bd6fb800 <= ratio_x64_upto(t, 0) <= 0x10000000000000000);
    lemma_ratio_bound_x64(ratio_x64_upto(t, 0), 0xfff97272373d4000, 0xfffcb933bd6fb800, 0xfff62bbb6d459859);
    assert(0xfff62bbb6d459859 <= ratio_x64_upto(t, 1) <= 0x10000000000000000);
    lemma_ratio_bound_x64(ratio_x64_upto(t, 1), 0xfff2e50f5f657000, 0xfff62bbb6d459859, 0xffe9114b9cf29d9a);
    assert(0xffe9114b9cf29d9a <= ratio_x64_upto(t, 2) <= 0x10000000000000000);
    lemma_ratio_bound_x64(ratio_x64_upto(t, 2), 0xffe5caca7e10f000, 0xffe9114b9cf29d9a, 0xffcede6f1d8c0483);
    assert(0xffcede6f1d8c0483 <= ratio_x64_upto(t, 3) <= 0x10000000000000000);
    lemma_ratio_bound_x64(ratio_x64_upto(t, 3), 0xffcb9843d60f7000, 0xffcede6f1d8c0483, 0xff9a80c1ada77220);
    assert(0xff9a80c1ada77220 <= ratio_x64_upto(t, 4) <= 0x10000000000000000);
    lemma_ratio_bound_x64(ratio_x64_upto(t, 4), 0xff973b41fa98e800, 0xff9a80c1ada77220, 0xff31e58d5a5419c2);
    assert(0xff31e58d5a5419c2 <= ratio_x64_upto(t, 5) <= 0x10000000000000000);
    lemma_ratio_bound_x64(ratio_x64_upto(t, 5), 0xff2ea16466c9b000, 0xff31e58d5a5419c2, 0xfe612f8183b280e0);
    assert(0xfe612f8183b280e0 <= ratio_x64_upto(t, 6) <= 0x10000000000000000);
    lemma_ratio_bound_x64(ratio_x64_upto(t, 6), 0xfe5dee046a9a3800, 0xfe612f8183b280e0, 0xfcc1c2f3805495f4);
    assert(0xfcc1c2f3805495f4 <= ratio_x64_upto(t, 7) <= 0x10000000000000000);
    lemma_ratio_bound_x64(ratio_x64_upto(t, 7), 0xfcbe86c7900bb000, 0xfcc1c2f3805495f4, 0xf98ad8c8d7ef0a9a);
    assert(0xf98ad8c8d7ef0a9a <= ratio_x64_upto(t, 8) <= 0x10000000000000000);
    lemma_ratio_bound_x64(ratio_x64_upto(t, 8), 0xf987a7253ac65800, 0xf98ad8c8d7ef0a9a, 0xf33c480189b8868b);
    assert(0xf33c480189b8868b <= ratio_x64_upto(t, 9) <= 0x10000000000000000);
    lemma_ratio_bound_x64(ratio_x64_upto(t, 9), 0xf3392b0822bb6000, 0xf33c480189b8868b, 0xe71889a8590c5dc9);
    assert(0xe71889a8590c5dc9 <= ratio_x64_upto(t, 10) <= 0x10000000000000000);
    lemma_ratio_bound_x64(ratio_x64_upto(t, 10), 0xe7159475a2caf000, 0xe71889a8590c5dc9, 0xd09a9f3e93ea6d30);
    assert(0xd09a9f3e93ea6d30 <= ratio_x64_upto(t, 11) <= 0x10000000000000000);
    lemma_ratio_bound_x64(ratio_x64_upto(t, 11), 0xd097f3bdfd2f2000, 0xd09a9f3e93ea6d30, 0xa9f973345bb6e56f);
    assert(0xa9f973345bb6e56f <= ratio_x64_upto(t, 12) <= 0x10000000000000000);
    lemma_ratio_bound_x64(ratio_x64_upto(t, 12), 0xa9f746462d9f8000, 0xa9f973345bb6e56f, 0x70d9db648610cc7e);
    assert(0x70d9db648610cc7e <= ratio_x64_upto(t, 13) <= 0x10000000000000000);
    lemma_ratio_bound_x64(ratio_x64_upto(t, 13), 0x70d869a156f31c00, 0x70d9db648610cc7e, 0x31beb65d91cc07af);
    assert(0x31beb65d91cc07af <= ratio_x64_upto(t, 14) <= 0x10000000000000000);
    lemma_ratio_bound_x64(ratio_x64_upto(t, 14), 0x31be135f97ed3200, 0x31beb65d91cc07af, 0x9aa7036fd2e7648);
    assert(0x9aa7036fd2e7648 <= ratio_x64_upto(t, 15) <= 0x10000000000000000);
    lemma_ratio_bound_x64(ratio_x64_upto(t, 15), 0x9aa508b5b85a500, 0x9aa7036fd2e7648, 0x5d6c2af97b81a7);
    assert(0x5d6c2af97b81a7 <= ratio_x64_upto(t, 16) <= 0x10000000000000000);
    lemma_ratio_bound_x64(ratio_x64_upto(t, 16), 0x5d6af8dedc582c, 0x5d6c2af97b81a7, 0x221755388b03);
    assert(0x221755388b03 <= ratio_x64_upto(t, 17) <= 0x10000000000000000);
    let r = ratio_x64_upto(t, 17);
    if tick > 0 {
        vstd::arithmetic::div_mod::lemma_div_is_ordered_by_denominator(
            u128::MAX as int,
            r,
            0x10000000000000000,
        );
    }
    let ratio = if tick > 0 {
        u128::MAX as int / r
    } else {
        r
    };
    if tick > 0 {
        vstd::arithmetic::div_mod::lemma_div_is_ordered_by_denominator(
            u128::MAX as int,
            0x221755388b03,
            r,
        );
    }
    assert(1 <= ratio <= u128::MAX as int / 0x221755388b03);
    vstd::arithmetic::div_mod::lemma_div_is_ordered(4294967296, ratio + 4294967296 - 1, 4294967296);
    vstd::arithmetic::div_mod::lemma_div_is_ordered(
        ratio + 4294967296 - 1,
        u128::MAX as int / 0x221755388b03 + 4294967296 - 1,
        4294967296,
    );
}

/// Multiplies a Q64.64 ratio of at most one by a Q64.64 factor below one, truncating back to 64
/// fractional bits.
fn mul_factor_x64(ratio: u128, factor: u128) -> (next: u128)
    requires
        ratio <= 0x10000000000000000,
        factor < 0x10000000000000000,
    ensures
        next == ratio * factor / 0x10000000000000000,
{
    proof {
        vstd::arithmetic::mul::lemma_mul_upper_bound(
            ratio as int,
            0x10000000000000000,
            factor as int,
            0xffffffffffffffff,
        );
        lemma2_to64();
        lemma_u128_shr_is_div((ratio * factor) as u128, 64);
    }
    (ratio * factor) >> 64
}

/// Calculates `1.0001^(tick/2)` as a U32.32 number representing
/// the square root of the ratio of the two assets (token_1/token_0).
///
/// Calculates result as a U64.64, then rounds up to U32.32.
/// Each magic factor is `2^64 / (1.0001^(2^(i - 1)))` for i in `[0, 18)`.
///
/// Fails with `T` if `|tick| > MAX_TICK`.
///
/// # Arguments
/// * `tick` - Price tick
#[verifier::spinoff_prover]
#[verifier::rlimit(50)]
pub fn get_sqrt_ratio_at_tick(tick: i32) -> (result: Result<u64, ErrorCode>)
    ensures
        result == sqrt_ratio_at_tick_result(tick),
        abs_tick(tick) <= MAX_TICK ==> 1 <= sqrt_ratio_at_tick_value(tick) <= u64::MAX,
{
    let abs_tick: u128 = if tick < 0 {
        (-(tick as i64)) as u128
    } else {
        tick as u128
    };
    if abs_tick > MAX_TICK as u128 {
        return Err(ErrorCode::T);
    }
    assert((1u128 << 1u128) == 0x2u128 && (1u128 << 2u128) == 0x4u128 && (1u128 << 3u128) == 0x8u128 && (1u128 << 4u128) == 0x10u128 && (1u128 << 5u128) == 0x20u128 && (1u128 << 6u128) == 0x40u128 && (1u128 << 7u128) == 0x80u128 && (1u128 << 8u128) == 0x100u128 && (1u128 << 9u128) == 0x200u128 && (1u128 << 10u128) == 0x400u128 && (1u128 << 11u128) == 0x800u128 && (1u128 << 12u128) == 0x1000u128 && (1u128 << 13u128) == 0x2000u128 && (1u128 << 14u128) == 0x4000u128 && (1u128 << 15u128) == 0x8000u128 && (1u128 << 16u128) == 0x10000u128 && (1u128 << 17u128) == 0x20000u128) by (bit_vector);

    // i = 0
    let mut ratio: u128 = if abs_tick & 0x1 != 0 {
        0xfffcb933bd6fb800
    } else {
        // 2^64
        0x10000000000000000
    };
    assert(0xfffcb933bd6fb800 <= ratio <= 0x10000000000000000 && ratio == ratio_x64_upto(
        abs_tick,
        0,
    ));
    // i = 1
    let ghost prev = ratio;
    if abs_tick & 0x2 != 0 {
        ratio = mul_factor_x64(ratio, 0xfff97272373d4000);
    }
    assert(0xfff62bbb6d459859 <= ratio <= 0x10000000000000000 && ratio == ratio_x64_upto(abs_tick, 1)) by {
        lemma_ratio_bound_x64(prev as int, 0xfff97272373d4000, 0xfffcb933bd6fb800, 0xfff62bbb6d459859);
    }
    // i = 2
    let ghost prev = ratio;
    if abs_tick & 0x4 != 0 {
        ratio = mul_factor_x64(ratio, 0xfff2e50f5f657000);
    }
    assert(0xffe9114b9cf29d9a <= ratio <= 0x10000000000000000 && ratio == ratio_x64_upto(abs_tick, 2)) by {
        lemma_ratio_bound_x64(prev as int, 0xfff2e50f5f657000, 0xfff62bbb6d459859, 0xffe9114b9cf29d9a);
    }
    // i = 3
    let ghost prev = ratio;
    if abs_tick & 0x8 != 0 {
        ratio = mul_factor_x64(ratio, 0xffe5caca7e10f000);
    }
    assert(0xffcede6f1d8c0483 <= ratio <= 0x10000000000000000 && ratio == ratio_x64_upto(abs_tick, 3)) by {
        lemma_ratio_bound_x64(prev as int, 0xffe5caca7e10f000, 0xffe9114b9cf29d9a, 0xffcede6f1d8c0483);
    }
    // i = 4
    let ghost prev = ratio;
    if abs_tick & 0x10 != 0 {
        ratio = mul_factor_x64(ratio, 0xffcb9843d60f7000);
    }
    assert(0xff9a80c1ada77220 <= ratio <= 0x10000000000000000 && ratio == ratio_x64_upto(abs_tick, 4)) by {
        lemma_ratio_bound_x64(prev as int, 0xffcb9843d60f7000, 0xffcede6f1d8c0483, 0xff9a80c1ada77220);
    }
    // i = 5
    let ghost prev = ratio;
    if abs_tick & 0x20 != 0 {
        ratio = mul_factor_x64(ratio, 0xff973b41fa98e800);
    }
    assert(0xff31e58d5a5419c2 <= ratio <= 0x10000000000000000 && ratio == ratio_x64_upto(abs_tick, 5)) by {
        lemma_ratio_bound_x64(prev as int, 0xff973b41fa98e800, 0xff9a80c1ada77220, 0xff31e58d5a5419c2);
    }
    // i = 6
    let ghost prev = ratio;
    if abs_tick & 0x40 != 0 {
        ratio = mul_factor_x64(ratio, 0xff2ea16466c9b000);
    }
    assert(0xfe612f8183b280e0 <= ratio <= 0x10000000000000000 && ratio == ratio_x64_upto(abs_tick, 6)) by {
        lemma_ratio_bound_x64(prev as int, 0xff2ea16466c9b000, 0xff31e58d5a5419c2, 0xfe612f8183b280e0);
    }
    // i = 7
    let ghost prev = ratio;
    if abs_tick & 0x80 != 0 {
        ratio = mul_factor_x64(ratio, 0xfe5dee046a9a3800);
    }
    assert(0xfcc1c2f3805495f4 <= ratio <= 0x10000000000000000 && ratio == ratio_x64_upto(abs_tick, 7)) by {
        lemma_ratio_bound_x64(prev as int, 0xfe5dee046a9a3800, 0xfe612f8183b280e0, 0xfcc1c2f3805495f4);
    }
    // i = 8
    let ghost prev = ratio;
    if abs_tick & 0x100 != 0 {
        ratio = mul_factor_x64(ratio, 0xfcbe86c7900bb000);
    }
    assert(0xf98ad8c8d7ef0a9a <= ratio <= 0x10000000000000000 && ratio == ratio_x64_upto(abs_tick, 8)) by {
        lemma_ratio_bound_x64(prev as int, 0xfcbe86c7900bb000, 0xfcc1c2f3805495f4, 0xf98ad8c8d7ef0a9a);
    }
    // i = 9
    let ghost prev = ratio;
    if abs_tick & 0x200 != 0 {
        ratio = mul_factor_x64(ratio, 0xf987a7253ac65800);
    }
    assert(0xf33c480189b8868b <= ratio <= 0x10000000000000000 && ratio == ratio_x64_upto(abs_tick, 9)) by {
        lemma_ratio_bound_x64(prev as int, 0xf987a7253ac65800, 0xf98ad8c8d7ef0a9a, 0xf33c480189b8868b);
    }
    // i = 10
    let ghost prev = ratio;
    if abs_tick & 0x400 != 0 {
        ratio = mul_factor_x64(ratio, 0xf3392b0822bb6000);
    }
    assert(0xe71889a8590c5dc9 <= ratio <= 0x10000000000000000 && ratio == ratio_x64_upto(abs_tick, 10)) by {
        lemma_ratio_bound_x64(prev as int, 0xf3392b0822bb6000, 0xf33c480189b8868b, 0xe71889a8590c5dc9);
    }
    // i = 11
    let ghost prev = ratio;
    if abs_tick & 0x800 != 0 {
        ratio = mul_factor_x64(ratio, 0xe7159475a2caf000);
    }
    assert(0xd09a9f3e93ea6d30 <= ratio <= 0x10000000000000000 && ratio == ratio_x64_upto(abs_tick, 11)) by {
        lemma_ratio_bound_x64(prev as int, 0xe7159475a2caf000, 0xe71889a8590c5dc9, 0xd09a9f3e93ea6d30);
    }
    // i = 12
    let ghost prev = ratio;
    if abs_tick & 0x1000 != 0 {
        ratio = mul_factor_x64(ratio, 0xd097f3bdfd2f2000);
    }
    assert(0xa9f973345bb6e56f <= ratio <= 0x10000000000000000 && ratio == ratio_x64_upto(abs_tick, 12)) by {
        lemma_ratio_bound_x64(prev as int, 0xd097f3bdfd2f2000, 0xd09a9f3e93ea6d30, 0xa9f973345bb6e56f);
    }
    // i = 13
    let ghost prev = ratio;
    if abs_tick & 0x2000 != 0 {
        ratio = mul_factor_x64(ratio, 0xa9f746462d9f8000);
    }
    assert(0x70d9db648610cc7e <= ratio <= 0x10000000000000000 && ratio == ratio_x64_upto(abs_tick, 13)) by {
        lemma_ratio_bound_x64(prev as int, 0xa9f746462d9f8000, 0xa9f973345bb6e56f, 0x70d9db648610cc7e);
    }
    // i = 14
    let ghost prev = ratio;
    if abs_tick & 0x4000 != 0 {
        ratio = mul_factor_x64(ratio, 0x70d869a156f31c00);
    }
    assert(0x31beb65d91cc07af <= ratio <= 0x10000000000000000 && ratio == ratio_x64_upto(abs_tick, 14)) by {
        lemma_ratio_bound_x64(prev as int, 0x70d869a156f31c00, 0x70d9db648610cc7e, 0x31beb65d91cc07af);
    }
    // i = 15
    let ghost prev = ratio;
    if abs_tick & 0x8000 != 0 {
        ratio = mul_factor_x64(ratio, 0x31be135f97ed3200);
    }
    assert(0x9aa7036fd2e7648 <= ratio <= 0x10000000000000000 && ratio == ratio_x64_upto(abs_tick, 15)) by {
        lemma_ratio_bound_x64(prev as int, 0x31be135f97ed3200, 0x31beb65d91cc07af, 0x9aa7036fd2e7648);
    }
    // i = 16
    let ghost prev = ratio;
    if abs_tick & 0x10000 != 0 {
        ratio = mul_factor_x64(ratio, 0x9aa508b5b85a500);
    }
    assert(0x5d6c2af97b81a7 <= ratio <= 0x10000000000000000 && ratio == ratio_x64_upto(abs_tick, 16)) by {
        lemma_ratio_bound_x64(prev as int, 0x9aa508b5b85a500, 0x9aa7036fd2e7648, 0x5d6c2af97b81a7);
    }
    // i = 17
    let ghost prev = ratio;
    if abs_tick & 0x20000 != 0 {
        ratio = mul_factor_x64(ratio, 0x5d6af8dedc582c);
    }
    assert(0x221755388b03 <= ratio <= 0x10000000000000000 && ratio == ratio_x64_upto(abs_tick, 17)) by {
        lemma_ratio_bound_x64(prev as int, 0x5d6af8dedc582c, 0x5d6c2af97b81a7, 0x221755388b03);
    }

    // Divide to obtain 1.0001^(2^(i - 1)) * 2^32 in numerator
    let ghost product = ratio;
    if tick > 0 {
        ratio = u128::MAX / ratio;
        proof {
            vstd::arithmetic::div_mod::lemma_div_is_ordered_by_denominator(
                u128::MAX as int,
                0x221755388b03,
                product as int,
            );
            vstd::arithmetic::div_mod::lemma_div_is_ordered_by_denominator(
                u128::MAX as int,
                product as int,
                0x10000000000000000,
            );
        }
    }
    assert(1 <= ratio <= u128::MAX as int / 0x221755388b03);

    // Rounding up and convert to U32.32
    proof {
        lemma2_to64();
        lemma_u128_shr_is_div(ratio, 32);
        crate::libraries::unsafe_math::lemma_div_ceil_split(ratio as int, 4294967296);
    }
    let sqrt_price_x32 = ((ratio >> 32) as u64) + if ratio % 4294967296 != 0 {
        1
    } else {
        0
    };
    Ok(sqrt_price_x32)
}

/// `Σ f_j · 2^j` for `j = k, k-1, ..., 2`: the binary digits of the fractional part of `log2`
/// of a mantissa `r` in `[1, 2)` held as a Q1.31 number.  Each digit `f_j` is the integer part of
/// the squared mantissa, which is halved when it reached two.
pub open spec fn log2_fraction_bits(r: int, k: int) -> int
    decreases k,
{
    if k < 2 {
        0
    } else {
        let s = square_x31(r);
        let f = s / 4294967296;
        f * pow2(k as nat) + log2_fraction_bits(
            if f == 1 {
                s / 2
            } else {
                s
            },
            k - 1,
        )
    }
}

/// The square of a Q1.31 number, truncated to 31 fractional bits.
#[verifier::opaque]
pub open spec fn square_x31(r: int) -> int {
    r * r / 2147483648
}

/// The mantissa of `x` as a Q1.31 number in `[1, 2)`: `x / 2^(msb - 31)`, shifted left instead
/// when the most significant bit is below 31.
pub open spec fn normalized_mantissa(x: u64) -> int {
    let m = floor_log2(x as nat);
    if m >= 32 {
        x as int / pow2((m - 31) as nat) as int
    } else {
        x as int * pow2((31 - m) as nat) as int
    }
}

/// `log2(x / 2^32)` as a Q48.16 number, with the last two fractional bits left at zero.
pub open spec fn log2_x16(x: u64) -> int {
    (floor_log2(x as nat) - 32) * 65536 + log2_fraction_bits(normalized_mantissa(x), 15)
}

/// The lower tick estimate: `floor(log_sqrt(1.0001)(x) - 0.01)` from the approximate logarithm.
pub open spec fn tick_low_at(x: u64) -> int {
    (log2_x16(x) * 908567298 - 42949672) / 4294967296
}

/// The upper tick estimate, which covers the truncation error of the approximate logarithm.
pub open spec fn tick_high_at(x: u64) -> int {
    (log2_x16(x) * 908567298 + 3677218864) / 4294967296
}

/// The tick estimated for `x`: the lower estimate, or the upper estimate when the two differ and
/// the price at the upper estimate does not exceed `x`.
pub open spec fn tick_estimate(x: u64) -> int {
    let lo = tick_low_at(x);
    let hi = tick_high_at(x);
    if lo == hi {
        lo
    } else if sqrt_ratio_at_tick_value(hi as i32) <= x {
        hi
    } else {
        lo
    }
}

/// `t` is the greatest tick, counting `MIN_TICK - 1` as below every price, whose price does not
/// exceed `x`: its own price, when it is in range, does not exceed `x`, and the price one tick
/// above, when that is in range, does.  The price strictly increases with the tick
/// (`tick_order::lemma_sqrt_ratio_at_tick_increasing`), so there is one such tick for each `x`.
pub open spec fn is_greatest_tick_at_or_below(x: u64, t: int) -> bool {
    &&& MIN_TICK - 1 <= t <= MAX_TICK
    &&& t >= MIN_TICK ==> sqrt_ratio_at_tick_value(t as i32) <= x
    &&& t < MAX_TICK ==> x < sqrt_ratio_at_tick_value((t + 1) as i32)
}

/// The greatest tick whose price does not exceed `x` (`MIN_TICK - 1` when there is none).
pub open spec fn tick_at_sqrt_ratio_value(x: u64) -> int {
    choose|t: int| is_greatest_tick_at_or_below(x, t)
}

/// The result of `get_tick_at_sqrt_ratio`: error `R` outside `[MIN_SQRT_RATIO, MAX_SQRT_RATIO)`,
/// else the greatest tick whose price does not exceed the input.
pub open spec fn tick_at_sqrt_ratio_result(x: u64) -> Result<i32, ErrorCode> {
    if x < MIN_SQRT_RATIO || x >= MAX_SQRT_RATIO {
        Err(ErrorCode::R)
    } else {
        Ok(tick_at_sqrt_ratio_value(x) as i32)
    }
}

/// The digit read from a squared Q1.31 mantissa `r`.
spec fn f_bit(r: u64) -> int {
    square_x31(r as int) / 4294967296
}

/// Squaring a mantissa in `[2^31, 2^32)` and halving when it reached two keeps it in
/// `[2^31, 2^32)` and yields a digit of 0 or 1.
proof fn lemma_square_mantissa(r: int)
    requires
        2147483648 <= r < 4294967296,
    ensures
        0 <= r * r <= 0xfffffffe00000001,
        ({
            let s = square_x31(r);
            let f = s / 4294967296;
            &&& 2147483648 <= s < 8589934592
            &&& f == 0 || f == 1
            &&& f == 1 ==> 2147483648 <= s / 2 < 4294967296
            &&& f == 0 ==> s < 4294967296
        }),
{
    reveal(square_x31);
    vstd::arithmetic::mul::lemma_mul_inequality(2147483648, r, r);
    vstd::arithmetic::mul::lemma_mul_inequality(2147483648, r, 2147483648);
    vstd::arithmetic::mul::lemma_mul_upper_bound(r, 4294967295, r, 4294967295);
    vstd::arithmetic::div_mod::lemma_div_is_ordered(0x4000000000000000, r * r, 2147483648);
    vstd::arithmetic::div_mod::lemma_div_is_ordered(r * r, 0xfffffffe00000001, 2147483648);
}

/// The exec squaring step on a `u64` mantissa computes the spec squaring step.
proof fn lemma_fraction_step(r: u64)
    requires
        2147483648 <= r < 4294967296,
    ensures
        r * r <= u64::MAX,
        ((r * r) as u64) >> 31u64 == square_x31(r as int),
        (square_x31(r as int) as u64) >> 32u64 == f_bit(r),
        f_bit(r) == 0 || f_bit(r) == 1,
        ((square_x31(r as int) as u64) >> (f_bit(r) as u8)) == if f_bit(r) == 1 {
            square_x31(r as int) / 2
        } else {
            square_x31(r as int)
        },
        2147483648 <= (if f_bit(r) == 1 {
            square_x31(r as int) / 2
        } else {
            square_x31(r as int)
        }) < 4294967296,
{
    lemma_square_mantissa(r as int);
    lemma2_to64();
    lemma_u64_shr_is_div((r * r) as u64, 31);
    assert(((r * r) as u64) >> 31u64 == square_x31(r as int)) by {
        reveal(square_x31);
    }
    let s = square_x31(r as int) as u64;
    lemma_u64_shr_is_div(s, 32);
    let f8 = f_bit(r) as u8;
    assert(s >> f8 == s >> (f8 as u64)) by (bit_vector)
        requires
            f8 <= 1,
    ;
    if f8 == 0 {
        assert(s >> 0u64 == s) by (bit_vector);
    } else {
        lemma_u64_shr_is_div(s, 1);
    }
}

/// Adding the digit `f` at fractional place `k` to a Q48.16 logarithm whose bits below `k + 1`
/// are clear is an addition, and leaves the bits below `k` clear.
proof fn lemma_fraction_bit_or(a: i64, f: int, k: u64)
    requires
        0 <= k < 16,
        f == 0 || f == 1,
        a & (((1i64 << (k + 1) as u64) - 1) as i64) == 0,
    ensures
        (a | ((f as i64) << k)) == a + f * pow2(k as nat),
        (a | ((f as i64) << k)) & (((1i64 << k) - 1) as i64) == 0,
{
    let fi = f as i64;
    assert((a | (fi << k)) == a + (fi << k) && (a | (fi << k)) & (((1i64 << k) - 1) as i64) == 0)
        by (bit_vector)
        requires
            0 <= k < 16,
            fi == 0 || fi == 1,
            a & (((1i64 << (k + 1) as u64) - 1) as i64) == 0,
    ;
    assert(fi << k == fi * (1i64 << k)) by (bit_vector)
        requires
            0 <= k < 16,
            fi == 0 || fi == 1,
    ;
    assert(1i64 << k == pow2(k as nat)) by {
        lemma2_to64();
        assert(1u64 << k == pow2(k as nat)) by {
            lemma_u64_shl_is_mul(1, k);
        }
        assert(1i64 << k == 1u64 << k) by (bit_vector)
            requires
                k < 16,
        ;
    }
}

/// The digits of the fractional part fill at most the places `2..=k`.
proof fn lemma_fraction_bits_bound(r: int, k: int)
    requires
        2147483648 <= r < 4294967296,
        k >= 1,
    ensures
        0 <= log2_fraction_bits(r, k) <= pow2((k + 1) as nat) - 4,
    decreases k,
{
    lemma2_to64();
    if k >= 2 {
        lemma_square_mantissa(r);
        let s = square_x31(r);
        let f = s / 4294967296;
        lemma_fraction_bits_bound(if f == 1 { s / 2 } else { s }, k - 1);
        lemma_pow2_unfold((k + 1) as nat);
        lemma_pow2_pos(k as nat);
    }
}

/// The two tick estimates lie within one of each other and within the tick range, so that the
/// upper estimate is always a valid tick.
proof fn lemma_tick_estimates(x: u64)
    requires
        MIN_SQRT_RATIO <= x < MAX_SQRT_RATIO,
        16 <= floor_log2(x as nat) <= 47,
        2147483648 <= normalized_mantissa(x) < 4294967296,
    ensures
        -1048576 <= log2_x16(x) <= 1048572,
        MIN_TICK - 1 <= tick_low_at(x) <= tick_high_at(x) <= tick_low_at(x) + 1,
        MIN_TICK <= tick_high_at(x) <= MAX_TICK,
{
    lemma2_to64();
    lemma_fraction_bits_bound(normalized_mantissa(x), 15);
    let l = log2_x16(x);
    vstd::arithmetic::mul::lemma_mul_inequality(-1048576, l, 908567298);
    vstd::arithmetic::mul::lemma_mul_inequality(l, 1048572, 908567298);
    let big = l * 908567298;
    vstd::arithmetic::div_mod::lemma_div_is_ordered(
        -1048576int * 908567298 - 42949672,
        big - 42949672,
        4294967296,
    );
    vstd::arithmetic::div_mod::lemma_div_is_ordered(big - 42949672, big + 3677218864, 4294967296);
    vstd::arithmetic::div_mod::lemma_div_is_ordered(
        big + 3677218864,
        big - 42949672 + 4294967296,
        4294967296,
    );
    vstd::arithmetic::div_mod::lemma_div_plus_one(big - 42949672, 4294967296);
    vstd::arithmetic::div_mod::lemma_div_is_ordered(
        big + 3677218864,
        1048572int * 908567298 + 3677218864,
        4294967296,
    );
    vstd::arithmetic::div_mod::lemma_div_is_ordered(
        -1048576int * 908567298 + 3677218864,
        big + 3677218864,
        4294967296,
    );
}

/// Shifting a Q48.16 logarithm scaled by `2^32` right by 32 bits is floor division.
proof fn lemma_i64_shr_32(v: i64)
    ensures
        v >> 32u64 == v / 4294967296,
{
    assert(v >> 32u64 == v / 4294967296i64) by (bit_vector);
}

/// Normalizing by a shift gives the Q1.31 mantissa in `[2^31, 2^32)`.
proof fn lemma_normalize(x: u64, msb: u8)
    requires
        is_most_significant_bit(x, msb as nat),
        16 <= msb <= 47,
    ensures
        msb >= 32 ==> x >> ((msb - 31) as u64) == normalized_mantissa(x),
        msb < 32 ==> x * pow2((31 - msb) as nat) <= u64::MAX && x << ((31 - msb) as u64)
            == normalized_mantissa(x),
        2147483648 <= normalized_mantissa(x) < 4294967296,
{
    lemma_msb_is_floor_log2(x, msb as nat);
    lemma2_to64();
    if msb >= 32 {
        let d = (msb - 31) as nat;
        lemma_u64_shr_is_div(x, d as u64);
        lemma_pow2_adds(d, 31);
        lemma_pow2_adds(d, 32);
        lemma_pow2_pos(d);
        vstd::arithmetic::div_mod::lemma_div_is_ordered((pow2(d) * pow2(31)) as int, x as int, pow2(d) as int);
        vstd::arithmetic::div_mod::lemma_div_by_multiple(pow2(31) as int, pow2(d) as int);
        vstd::arithmetic::mul::lemma_mul_is_commutative(pow2(d) as int, pow2(31) as int);
        vstd::arithmetic::mul::lemma_mul_is_commutative(pow2(d) as int, pow2(32) as int);
        vstd::arithmetic::div_mod::lemma_multiply_divide_lt(x as int, pow2(d) as int, pow2(32) as int);
    } else {
        let d = (31 - msb) as nat;
        lemma_pow2_adds(msb as nat, d);
        lemma_pow2_adds((msb + 1) as nat, d);
        lemma_pow2_pos(d);
        vstd::arithmetic::mul::lemma_mul_inequality(pow2(msb as nat) as int, x as int, pow2(d) as int);
        vstd::arithmetic::mul::lemma_mul_strict_inequality(x as int, pow2((msb + 1) as nat) as int, pow2(d) as int);
        lemma_u64_shl_is_mul(x, d as u64);
    }
}

/// Estimates the tick of a price in `[MIN_SQRT_RATIO, MAX_SQRT_RATIO)` from its approximate
/// logarithm: the tick is chosen between a lower and an upper estimate, the upper one when its
/// price does not exceed the input.
///
/// Formula: `i = log base(√1.0001) (√P)`
///
/// # Arguments
///
/// * `sqrt_price_x32`- The sqrt ratio for which to compute the tick as a U32.32
#[verifier::rlimit(100)]
#[verifier::spinoff_prover]
fn estimate_tick_at_sqrt_ratio(sqrt_price_x32: u64) -> (tick: i32)
    requires
        MIN_SQRT_RATIO <= sqrt_price_x32 < MAX_SQRT_RATIO,
    ensures
        tick == tick_estimate(sqrt_price_x32),
        MIN_TICK - 1 <= tick <= MAX_TICK,
{
    let x = sqrt_price_x32;

    // ------------------------------------------------------
    // Decimal part of logarithm = MSB
    // Binary search method: 2^32, 2^16, 2^8, 2^4, 2^2 and 2^1 for U32.32
    let msb = most_significant_bit(sqrt_price_x32);  // in [16, 48)

    proof {
        lemma_msb_is_floor_log2(x, msb as nat);
        lemma2_to64();
        lemma2_to64_rest();
        if msb < 16 {
            lemma_pow2_strictly_increases((msb + 1) as nat, 16);
        }
        if msb > 47 {
            lemma_pow2_strictly_increases(48, msb as nat);
        }
        lemma_normalize(x, msb);
        let e = (msb as i64 - 32) as i64;
        assert(e << 16u64 == e * 65536 && (e << 16u64) & (((1i64 << 16u64) - 1) as i64) == 0)
            by (bit_vector)
            requires
                -16 <= e <= 15,
        ;
    }

    // log2 (m x 2^e) = log2 (m) + e
    // For U32.32, e = -32. Subtract by 32 to remove x32 notation.
    // Then left shift by 16 bits to convert into U48.16 form
    let mut log_2_x16 = (msb as i64 - 32) << 16;

    // ------------------------------------------------------
    // Fractional part of logarithm

    // Set r = r / 2^n as a Q33.31 number, where n stands for msb
    let mut r = if msb >= 32 {
        sqrt_price_x32 >> (msb - 31)
    } else {
        sqrt_price_x32 << (31 - msb)
    };
    let mut f: u8;
    let ghost mantissa = r as int;
    let ghost mut acc: int = 0;
    assert(mantissa == normalized_mantissa(x));

    // digit at fractional place 15
    let ghost r0 = r;
    let ghost l0 = log_2_x16;
    assert(r * r <= u64::MAX && (((r * r) as u64) >> 31u64) >> 32u64 <= 1) by {
        lemma_fraction_step(r);
    }
    r = (r * r) >> 31;
    f = (r >> 32) as u8;
    log_2_x16 |= (f as i64) << 15;
    r >>= f;
    proof {
        acc = acc + f * pow2(15);
    }
    assert(2147483648 <= r < 4294967296 && log_2_x16 == l0 + f * pow2(15) && log_2_x16
        & (((1i64 << 15u64) - 1) as i64) == 0 && acc + log2_fraction_bits(r as int, 14) == log2_fraction_bits(
        mantissa,
        15,
    )) by {
        lemma_fraction_step(r0);
        lemma_fraction_bit_or(l0, f_bit(r0), 15);
    }

    // digit at fractional place 14
    let ghost r0 = r;
    let ghost l0 = log_2_x16;
    assert(r * r <= u64::MAX && (((r * r) as u64) >> 31u64) >> 32u64 <= 1) by {
        lemma_fraction_step(r);
    }
    r = (r * r) >> 31;
    f = (r >> 32) as u8;
    log_2_x16 |= (f as i64) << 14;
    r >>= f;
    proof {
        acc = acc + f * pow2(14);
    }
    assert(2147483648 <= r < 4294967296 && log_2_x16 == l0 + f * pow2(14) && log_2_x16
        & (((1i64 << 14u64) - 1) as i64) == 0 && acc + log2_fraction_bits(r as int, 13) == log2_fraction_bits(
        mantissa,
        15,
    )) by {
        lemma_fraction_step(r0);
        lemma_fraction_bit_or(l0, f_bit(r0), 14);
    }

    // digit at fractional place 13
    let ghost r0 = r;
    let ghost l0 = log_2_x16;
    assert(r * r <= u64::MAX && (((r * r) as u64) >> 31u64) >> 32u64 <= 1) by {
        lemma_fraction_step(r);
    }
    r = (r * r) >> 31;
    f = (r >> 32) as u8;
    log_2_x16 |= (f as i64) << 13;
    r >>= f;
    proof {
        acc = acc + f * pow2(13);
    }
    assert(2147483648 <= r < 4294967296 && log_2_x16 == l0 + f * pow2(13) && log_2_x16
        & (((1i64 << 13u64) - 1) as i64) == 0 && acc + log2_fraction_bits(r as int, 12) == log2_fraction_bits(
        mantissa,
        15,
    )) by {
        lemma_fraction_step(r0);
        lemma_fraction_bit_or(l0, f_bit(r0), 13);
    }

    // digit at fractional place 12
    let ghost r0 = r;
    let ghost l0 = log_2_x16;
    assert(r * r <= u64::MAX && (((r * r) as u64) >> 31u64) >> 32u64 <= 1) by {
        lemma_fraction_step(r);
    }
    r = (r * r) >> 31;
    f = (r >> 32) as u8;
    log_2_x16 |= (f as i64) << 12;
    r >>= f;
    proof {
        acc = acc + f * pow2(12);
    }
    assert(2147483648 <= r < 4294967296 && log_2_x16 == l0 + f * pow2(12) && log_2_x16
        & (((1i64 << 12u64) - 1) as i64) == 0 && acc + log2_fraction_bits(r as int, 11) == log2_fraction_bits(
        mantissa,
        15,
    )) by {
        lemma_fraction_step(r0);
        lemma_fraction_bit_or(l0, f_bit(r0), 12);
    }

    // digit at fractional place 11
    let ghost r0 = r;
    let ghost l0 = log_2_x16;
    assert(r * r <= u64::MAX && (((r * r) as u64) >> 31u64) >> 32u64 <= 1) by {
        lemma_fraction_step(r);
    }
    r = (r * r) >> 31;
    f = (r >> 32) as u8;
    log_2_x16 |= (f as i64) << 11;
    r >>= f;
    proof {
        acc = acc + f * pow2(11);
    }
    assert(2147483648 <= r < 4294967296 && log_2_x16 == l0 + f * pow2(11) && log_2_x16
        & (((1i64 << 11u64) - 1) as i64) == 0 && acc + log2_fraction_bits(r as int, 10) == log2_fraction_bits(
        mantissa,
        15,
    )) by {
        lemma_fraction_step(r0);
        lemma_fraction_bit_or(l0, f_bit(r0), 11);
    }

    // digit at fractional place 10
    let ghost r0 = r;
    let ghost l0 = log_2_x16;
    assert(r * r <= u64::MAX && (((r * r) as u64) >> 31u64) >> 32u64 <= 1) by {
        lemma_fraction_step(r);
    }
    r = (r * r) >> 31;
    f = (r >> 32) as u8;
    log_2_x16 |= (f as i64) << 10;
    r >>= f;
    proof {
        acc = acc + f * pow2(10);
    }
    assert(2147483648 <= r < 4294967296 && log_2_x16 == l0 + f * pow2(10) && log_2_x16
        & (((1i64 << 10u64) - 1) as i64) == 0 && acc + log2_fraction_bits(r as int, 9) == log2_fraction_bits(
        mantissa,
        15,
    )) by {
        lemma_fraction_step(r0);
        lemma_fraction_bit_or(l0, f_bit(r0), 10);
    }

    // digit at fractional place 9
    let ghost r0 = r;
    let ghost l0 = log_2_x16;
    assert(r * r <= u64::MAX && (((r * r) as u64) >> 31u64) >> 32u64 <= 1) by {
        lemma_fraction_step(r);
    }
    r = (r * r) >> 31;
    f = (r >> 32) as u8;
    log_2_x16 |= (f as i64) << 9;
    r >>= f;
    proof {
        acc = acc + f * pow2(9);
    }
    assert(2147483648 <= r < 4294967296 && log_2_x16 == l0 + f * pow2(9) && log_2_x16
        & (((1i64 << 9u64) - 1) as i64) == 0 && acc + log2_fraction_bits(r as int, 8) == log2_fraction_bits(
        mantissa,
        15,
    )) by {
        lemma_fraction_step(r0);
        lemma_fraction_bit_or(l0, f_bit(r0), 9);
    }

    // digit at fractional place 8
    let ghost r0 = r;
    let ghost l0 = log_2_x16;
    assert(r * r <= u64::MAX && (((r * r) as u64) >> 31u64) >> 32u64 <= 1) by {
        lemma_fraction_step(r);
    }
    r = (r * r) >> 31;
    f = (r >> 32) as u8;
    log_2_x16 |= (f as i64) << 8;
    r >>= f;
    proof {
        acc = acc + f * pow2(8);
    }
    assert(2147483648 <= r < 4294967296 && log_2_x16 == l0 + f * pow2(8) && log_2_x16
        & (((1i64 << 8u64) - 1) as i64) == 0 && acc + log2_fraction_bits(r as int, 7) == log2_fraction_bits(
        mantissa,
        15,
    )) by {
        lemma_fraction_step(r0);
        lemma_fraction_bit_or(l0, f_bit(r0), 8);
    }

    // digit at fractional place 7
    let ghost r0 = r;
    let ghost l0 = log_2_x16;
    assert(r * r <= u64::MAX && (((r * r) as u64) >> 31u64) >> 32u64 <= 1) by {
        lemma_fraction_step(r);
    }
    r = (r * r) >> 31;
    f = (r >> 32) as u8;
    log_2_x16 |= (f as i64) << 7;
    r >>= f;
    proof {
        acc = acc + f * pow2(7);
    }
    assert(2147483648 <= r < 4294967296 && log_2_x16 == l0 + f * pow2(7) && log_2_x16
        & (((1i64 << 7u64) - 1) as i64) == 0 && acc + log2_fraction_bits(r as int, 6) == log2_fraction_bits(
        mantissa,
        15,
    )) by {
        lemma_fraction_step(r0);
        lemma_fraction_bit_or(l0, f_bit(r0), 7);
    }

    // digit at fractional place 6
    let ghost r0 = r;
    let ghost l0 = log_2_x16;
    assert(r * r <= u64::MAX && (((r * r) as u64) >> 31u64) >> 32u64 <= 1) by {
        lemma_fraction_step(r);
    }
    r = (r * r) >> 31;
    f = (r >> 32) as u8;
    log_2_x16 |= (f as i64) << 6;
    r >>= f;
    proof {
        acc = acc + f * pow2(6);
    }
    assert(2147483648 <= r < 4294967296 && log_2_x16 == l0 + f * pow2(6) && log_2_x16
        & (((1i64 << 6u64) - 1) as i64) == 0 && acc + log2_fraction_bits(r as int, 5) == log2_fraction_bits(
        mantissa,
        15,
    )) by {
        lemma_fraction_step(r0);
        lemma_fraction_bit_or(l0, f_bit(r0), 6);
    }

    // digit at fractional place 5
    let ghost r0 = r;
    let ghost l0 = log_2_x16;
    assert(r * r <= u64::MAX && (((r * r) as u64) >> 31u64) >> 32u64 <= 1) by {
        lemma_fraction_step(r);
    }
    r = (r * r) >> 31;
    f = (r >> 32) as u8;
    log_2_x16 |= (f as i64) << 5;
    r >>= f;
    proof {
        acc = acc + f * pow2(5);
    }
    assert(2147483648 <= r < 4294967296 && log_2_x16 == l0 + f * pow2(5) && log_2_x16
        & (((1i64 << 5u64) - 1) as i64) == 0 && acc + log2_fraction_bits(r as int, 4) == log2_fraction_bits(
        mantissa,
        15,
    )) by {
        lemma_fraction_step(r0);
        lemma_fraction_bit_or(l0, f_bit(r0), 5);
    }

    // digit at fractional place 4
    let ghost r0 = r;
    let ghost l0 = log_2_x16;
    assert(r * r <= u64::MAX && (((r * r) as u64) >> 31u64) >> 32u64 <= 1) by {
        lemma_fraction_step(r);
    }
    r = (r * r) >> 31;
    f = (r >> 32) as u8;
    log_2_x16 |= (f as i64) << 4;
    r >>= f;
    proof {
        acc = acc + f * pow2(4);
    }
    assert(2147483648 <= r < 4294967296 && log_2_x16 == l0 + f * pow2(4) && log_2_x16
        & (((1i64 << 4u64) - 1) as i64) == 0 && acc + log2_fraction_bits(r as int, 3) == log2_fraction_bits(
        mantissa,
        15,
    )) by {
        lemma_fraction_step(r0);
        lemma_fraction_bit_or(l0, f_bit(r0), 4);
    }

    // digit at fractional place 3
    let ghost r0 = r;
    let ghost l0 = log_2_x16;
    assert(r * r <= u64::MAX && (((r * r) as u64) >> 31u64) >> 32u64 <= 1) by {
        lemma_fraction_step(r);
    }
    r = (r * r) >> 31;
    f = (r >> 32) as u8;
    log_2_x16 |= (f as i64) << 3;
    r >>= f;
    proof {
        acc = acc + f * pow2(3);
    }
    assert(2147483648 <= r < 4294967296 && log_2_x16 == l0 + f * pow2(3) && log_2_x16
        & (((1i64 << 3u64) - 1) as i64) == 0 && acc + log2_fraction_bits(r as int, 2) == log2_fraction_bits(
        mantissa,
        15,
    )) by {
        lemma_fraction_step(r0);
        lemma_fraction_bit_or(l0, f_bit(r0), 3);
    }

    // digit at fractional place 2
    let ghost r0 = r;
    let ghost l0 = log_2_x16;
    assert(r * r <= u64::MAX && (((r * r) as u64) >> 31u64) >> 32u64 <= 1) by {
        lemma_fraction_step(r);
    }
    r = (r * r) >> 31;
    f = (r >> 32) as u8;
    log_2_x16 |= (f as i64) << 2;
    proof {
        acc = acc + f * pow2(2);
    }
    assert(log_2_x16 == l0 + f * pow2(2) && log_2_x16
        & (((1i64 << 2u64) - 1) as i64) == 0 && acc + log2_fraction_bits(r as int, 1) == log2_fraction_bits(
        mantissa,
        15,
    )) by {
        lemma_fraction_step(r0);
        lemma_fraction_bit_or(l0, f_bit(r0), 2);
        reveal_with_fuel(log2_fraction_bits, 2);
    }
    proof {
        lemma_tick_estimates(x);
    }
    assert(log_2_x16 == log2_x16(x));

    // 14 bit refinement gives an error margin of 2^-14 / log2 (√1.0001) = 0.8461 < 1
    // Since tick is a decimal, an error under 1 is acceptable

    // Change of base rule: multiply with 2^16 / log2 (√1.0001)
    let log_sqrt_10001_x32 = log_2_x16 * 908567298;

    proof {
        lemma_i64_shr_32((log_sqrt_10001_x32 - 42949672) as i64);
        lemma_i64_shr_32((log_sqrt_10001_x32 + 3677218864) as i64);
    }
    // tick - 0.01
    let tick_low = ((log_sqrt_10001_x32 - 42949672) >> 32) as i32;

    // tick + (2^-14 / log2(√1.001)) + 0.01
    let tick_high = ((log_sqrt_10001_x32 + 3677218864) >> 32) as i32;

    if tick_low == tick_high {
        tick_low
    } else if get_sqrt_ratio_at_tick(tick_high).unwrap() <= sqrt_price_x32 {
        tick_high
    } else {
        tick_low
    }
}

/// The price at a tick in range.
fn price_at_tick(tick: i32) -> (price: u64)
    requires
        MIN_TICK <= tick <= MAX_TICK,
    ensures
        price == sqrt_ratio_at_tick_value(tick),
{
    match get_sqrt_ratio_at_tick(tick) {
        Ok(price) => price,
        Err(_) => 0,
    }
}

/// Calculates the greatest tick value such that `get_sqrt_ratio_at_tick(tick) <= ratio`.
///
/// Fails with `R` if `sqrt_price_x32 < MIN_SQRT_RATIO` or `sqrt_price_x32 >= MAX_SQRT_RATIO`.
///
/// The tick estimated from the approximate logarithm is confirmed against the prices: one tick
/// up while the next tick's price does not exceed the input, one tick down while the tick's own
/// price exceeds it.  Whenever the two estimates bracket the input, as they do at the price of
/// every tick, the estimate stands and this costs one price evaluation per direction.
///
/// # Arguments
///
/// * `sqrt_price_x32`- The sqrt ratio for which to compute the tick as a U32.32
pub fn get_tick_at_sqrt_ratio(sqrt_price_x32: u64) -> (result: Result<i32, ErrorCode>)
    ensures
        result == tick_at_sqrt_ratio_result(sqrt_price_x32),
        result matches Ok(tick) ==> is_greatest_tick_at_or_below(sqrt_price_x32, tick as int),
{
    // second inequality must be < because the price can never reach the price at the max tick
    if !(sqrt_price_x32 >= MIN_SQRT_RATIO && sqrt_price_x32 < MAX_SQRT_RATIO) {
        return Err(ErrorCode::R);
    }
    let mut tick = estimate_tick_at_sqrt_ratio(sqrt_price_x32);
    while tick < MAX_TICK && price_at_tick(tick + 1) <= sqrt_price_x32
        invariant
            MIN_TICK - 1 <= tick <= MAX_TICK,
        decreases MAX_TICK - tick,
    {
        tick = tick + 1;
    }
    while tick >= MIN_TICK && price_at_tick(tick) > sqrt_price_x32
        invariant
            MIN_TICK - 1 <= tick <= MAX_TICK,
            tick < MAX_TICK ==> sqrt_price_x32 < sqrt_ratio_at_tick_value((tick + 1) as i32),
        decreases tick - MIN_TICK + 1,
    {
        tick = tick - 1;
    }
    proof {
        assert(is_greatest_tick_at_or_below(sqrt_price_x32, tick as int));
        lemma_greatest_tick_unique(sqrt_price_x32, tick as int);
    }
    Ok(tick)
}

} // verus!
