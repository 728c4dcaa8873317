//! Square-root price at a tick, computed with 64-bit intermediates.
use vstd::arithmetic::power2::*;
use vstd::bits::*;
use vstd::prelude::*;

verus! {

/// The minimum tick.
pub const MIN_TICK: i32 = -221818;

/// The maximum tick.
pub const MAX_TICK: i32 = 221818;

/// The square-root price at the minimum tick.
pub const MIN_SQRT_PRICE: u64 = 65536;

/// The square-root price at the maximum tick.
pub const MAX_SQRT_PRICE: u64 = 281474976710655;

/// The magic factor `2^32 / 1.0001^(2^(i - 1))` for bit `i` of the tick, rounded to 32 bits.
pub open spec fn magic_factor_x32(i: int) -> int {
    if i == 1 {
        0xfff97272
    } else if i == 2 {
        0xfff2e50f
    } else if i == 3 {
        0xffe5caca
    } else if i == 4 {
        0xffcb9844
    } else if i == 5 {
        0xff973b42
    } else if i == 6 {
        0xff2ea164
    } else if i == 7 {
        0xfe5dee04
    } else if i == 8 {
        0xfcbe86c8
    } else if i == 9 {
        0xf987a725
    } else if i == 10 {
        0xf3392b08
    } else if i == 11 {
        0xe7159476
    } else if i == 12 {
        0xd097f3be
    } else if i == 13 {
        0xa9f74646
    } else if i == 14 {
        0x70d869a1
    } else if i == 15 {
        0x31be1360
    } else if i == 16 {
        0x9aa508b
    } else if i == 17 {
        0x5d6af9
    } else {
        0
    }
}

/// The Q32.32 value of `1.0001^(-t/2)` for the low `i + 1` bits of `t = abs_tick`: starting from
/// one (or the factor of bit 0), each set bit `j <= i` multiplies by its magic factor and
/// truncates back to 32 fractional bits.
pub open spec fn ratio_x32_upto(abs_tick: u64, i: nat) -> int
    decreases i,
{
    if i == 0 {
        if abs_tick & 1 != 0 {
            0xfffcb934
        } else {
            0x100000000
        }
    } else {
        let r = ratio_x32_upto(abs_tick, (i - 1) as nat);
        if abs_tick & (1u64 << (i as u64)) != 0 {
            r * magic_factor_x32(i as int) / 4294967296
        } else {
            r
        }
    }
}

/// The Q32.32 square-root price computed at `tick`: the product of the magic factors of the bits
/// of `|tick|`, inverted for positive ticks.
pub open spec fn sqrt_price_x32_value(tick: i32) -> int {
    let abs_tick = if tick < 0 { -tick } else { tick as int };
    let r = ratio_x32_upto(abs_tick as u64, 17);
    if tick > 0 {
        u64::MAX as int / r
    } else {
        r
    }
}

/// Bounds of one factor of the product: a ratio in `[b, 2^32]` times a factor below `2^32`
/// does not grow, and stays at least the bound `b2` obtained by applying the factor to `b`.
proof fn lemma_ratio_bound_x32(r: int, f: int, b: int, b2: int)
    requires
        0 < f < 4294967296,
        0 < b <= r <= 4294967296,
        b2 == b * f / 4294967296,
    ensures
        b2 <= r * f / 4294967296 <= r,
        b2 <= b,
{
    vstd::arithmetic::mul::lemma_mul_inequality(b, r, f);
    vstd::arithmetic::div_mod::lemma_div_is_ordered(b * f, r * f, 4294967296);
    vstd::arithmetic::mul::lemma_mul_inequality(f, 4294967296, r);
    vstd::arithmetic::mul::lemma_mul_is_commutative(r, 4294967296);
    vstd::arithmetic::mul::lemma_mul_is_commutative(f, r);
    vstd::arithmetic::div_mod::lemma_multiply_divide_le(r * f, 4294967296, r);
    vstd::arithmetic::mul::lemma_mul_inequality(f, 4294967296, b);
    vstd::arithmetic::mul::lemma_mul_is_commutative(b, 4294967296);
    vstd::arithmetic::mul::lemma_mul_is_commutative(f, b);
    vstd::arithmetic::div_mod::lemma_multiply_divide_le(b * f, 4294967296, b);
}

/// Multiplies a Q32.32 ratio of at most one by a Q32.32 factor below one, truncating back to 32
/// fractional bits.
fn mul_factor_x32(ratio: u64, factor: u64) -> (next: u64)
    requires
        ratio <= 4294967296,
        factor < 4294967296,
    ensures
        next == ratio * factor / 4294967296,
{
    proof {
        vstd::arithmetic::mul::lemma_mul_upper_bound(
            ratio as int,
            4294967296,
            factor as int,
            4294967295,
        );
        lemma2_to64();
        lemma_u64_shr_is_div((ratio * factor) as u64, 32);
    }
    (ratio * factor) >> 32
}

/// Calculates `1.0001^(tick/2)` as a U32.32 number representing
/// the square root of the ratio of the two assets (token_1/token_0).
///
/// The tick must satisfy `|tick| <= MAX_TICK`.
///
/// # Math
///
/// * A gas efficient implementation to find powers of sqrt(1.0001).
///  It find bitwise exponents with pre-computed magic factors.
///
/// * Each magic factor is `2^32 / (1.0001^(2^(i - 1)))` for i in `[0, 18)`
///
/// # Arguments
/// * `tick` - Price tick
pub fn sqrt_price_x32(tick: i32) -> (price: u64)
    requires
        MIN_TICK <= tick <= MAX_TICK,
    ensures
        price == sqrt_price_x32_value(tick),
{
    let abs_tick: u64 = if tick < 0 {
        (-tick) as u64
    } else {
        tick as u64
    };
    assert(abs_tick <= MAX_TICK as u64);
    assert((1u64 << 1u64) == 0x2u64 && (1u64 << 2u64) == 0x4u64 && (1u64 << 3u64) == 0x8u64
        && (1u64 << 4u64) == 0x10u64 && (1u64 << 5u64) == 0x20u64 && (1u64 << 6u64) == 0x40u64
        && (1u64 << 7u64) == 0x80u64 && (1u64 << 8u64) == 0x100u64 && (1u64 << 9u64) == 0x200u64
        && (1u64 << 10u64) == 0x400u64 && (1u64 << 11u64) == 0x800u64 && (1u64 << 12u64)
        == 0x1000u64 && (1u64 << 13u64) == 0x2000u64 && (1u64 << 14u64) == 0x4000u64 && (1u64
        << 15u64) == 0x8000u64 && (1u64 << 16u64) == 0x10000u64 && (1u64 << 17u64) == 0x20000u64)
        by (bit_vector);

    // i = 0
    let mut ratio: u64 = if abs_tick & 0x1 != 0 {
        0xfffcb934
    } else {
        // 2^32
        0x100000000
    };
    assert(0xfffcb934 <= ratio <= 4294967296 && ratio == ratio_x32_upto(abs_tick, 0));
    // i = 1
    let ghost prev = ratio;
    if abs_tick & 0x2 != 0 {
        ratio = mul_factor_x32(ratio, 0xfff97272);
    }
    assert(0xfff62bbb <= ratio <= 4294967296 && ratio == ratio_x32_upto(abs_tick, 1)) by {
        lemma_ratio_bound_x32(prev as int, 0xfff97272, 0xfffcb934, 0xfff62bbb);
    }
    // i = 2
    let ghost prev = ratio;
    if abs_tick & 0x4 != 0 {
        ratio = mul_factor_x32(ratio, 0xfff2e50f);
    }
    assert(0xffe9114a <= ratio <= 4294967296 && ratio == ratio_x32_upto(abs_tick, 2)) by {
        lemma_ratio_bound_x32(prev as int, 0xfff2e50f, 0xfff62bbb, 0xffe9114a);
    }
    // i = 3
    let ghost prev = ratio;
    if abs_tick & 0x8 != 0 {
        ratio = mul_factor_x32(ratio, 0xffe5caca);
    }
    assert(0xffcede6d <= ratio <= 4294967296 && ratio == ratio_x32_upto(abs_tick, 3)) by {
        lemma_ratio_bound_x32(prev as int, 0xffe5caca, 0xffe9114a, 0xffcede6d);
    }
    // i = 4
    let ghost prev = ratio;
    if abs_tick & 0x10 != 0 {
        ratio = mul_factor_x32(ratio, 0xffcb9844);
    }
    assert(0xff9a80bf <= ratio <= 4294967296 && ratio == ratio_x32_upto(abs_tick, 4)) by {
        lemma_ratio_bound_x32(prev as int, 0xffcb9844, 0xffcede6d, 0xff9a80bf);
    }
    // i = 5
    let ghost prev = ratio;
    if abs_tick & 0x20 != 0 {
        ratio = mul_factor_x32(ratio, 0xff973b42);
    }
    assert(0xff31e58a <= ratio <= 4294967296 && ratio == ratio_x32_upto(abs_tick, 5)) by {
        lemma_ratio_bound_x32(prev as int, 0xff973b42, 0xff9a80bf, 0xff31e58a);
    }
    // i = 6
    let ghost prev = ratio;
    if abs_tick & 0x40 != 0 {
        ratio = mul_factor_x32(ratio, 0xff2ea164);
    }
    assert(0xfe612f7d <= ratio <= 4294967296 && ratio == ratio_x32_upto(abs_tick, 6)) by {
        lemma_ratio_bound_x32(prev as int, 0xff2ea164, 0xff31e58a, 0xfe612f7d);
    }
    // i = 7
    let ghost prev = ratio;
    if abs_tick & 0x80 != 0 {
        ratio = mul_factor_x32(ratio, 0xfe5dee04);
    }
    assert(0xfcc1c2ee <= ratio <= 4294967296 && ratio == ratio_x32_upto(abs_tick, 7)) by {
        lemma_ratio_bound_x32(prev as int, 0xfe5dee04, 0xfe612f7d, 0xfcc1c2ee);
    }
    // i = 8
    let ghost prev = ratio;
    if abs_tick & 0x100 != 0 {
        ratio = mul_factor_x32(ratio, 0xfcbe86c8);
    }
    assert(0xf98ad8c3 <= ratio <= 4294967296 && ratio == ratio_x32_upto(abs_tick, 8)) by {
        lemma_ratio_bound_x32(prev as int, 0xfcbe86c8, 0xfcc1c2ee, 0xf98ad8c3);
    }
    // i = 9
    let ghost prev = ratio;
    if abs_tick & 0x200 != 0 {
        ratio = mul_factor_x32(ratio, 0xf987a725);
    }
    assert(0xf33c47fb <= ratio <= 4294967296 && ratio == ratio_x32_upto(abs_tick, 9)) by {
        lemma_ratio_bound_x32(prev as int, 0xf987a725, 0xf98ad8c3, 0xf33c47fb);
    }
    // i = 10
    let ghost prev = ratio;
    if abs_tick & 0x400 != 0 {
        ratio = mul_factor_x32(ratio, 0xf3392b08);
    }
    assert(0xe71889a2 <= ratio <= 4294967296 && ratio == ratio_x32_upto(abs_tick, 10)) by {
        lemma_ratio_bound_x32(prev as int, 0xf3392b08, 0xf33c47fb, 0xe71889a2);
    }
    // i = 11
    let ghost prev = ratio;
    if abs_tick & 0x800 != 0 {
        ratio = mul_factor_x32(ratio, 0xe7159476);
    }
    assert(0xd09a9f39 <= ratio <= 4294967296 && ratio == ratio_x32_upto(abs_tick, 11)) by {
        lemma_ratio_bound_x32(prev as int, 0xe7159476, 0xe71889a2, 0xd09a9f39);
    }
    // i = 12
    let ghost prev = ratio;
    if abs_tick & 0x1000 != 0 {
        ratio = mul_factor_x32(ratio, 0xd097f3be);
    }
    assert(0xa9f9732f <= ratio <= 4294967296 && ratio == ratio_x32_upto(abs_tick, 12)) by {
        lemma_ratio_bound_x32(prev as int, 0xd097f3be, 0xd09a9f39, 0xa9f9732f);
    }
    // i = 13
    let ghost prev = ratio;
    if abs_tick & 0x2000 != 0 {
        ratio = mul_factor_x32(ratio, 0xa9f74646);
    }
    assert(0x70d9db60 <= ratio <= 4294967296 && ratio == ratio_x32_upto(abs_tick, 13)) by {
        lemma_ratio_bound_x32(prev as int, 0xa9f74646, 0xa9f9732f, 0x70d9db60);
    }
    // i = 14
    let ghost prev = ratio;
    if abs_tick & 0x4000 != 0 {
        ratio = mul_factor_x32(ratio, 0x70d869a1);
    }
    assert(0x31beb65b <= ratio <= 4294967296 && ratio == ratio_x32_upto(abs_tick, 14)) by {
        lemma_ratio_bound_x32(prev as int, 0x70d869a1, 0x70d9db60, 0x31beb65b);
    }
    // i = 15
    let ghost prev = ratio;
    if abs_tick & 0x8000 != 0 {
        ratio = mul_factor_x32(ratio, 0x31be1360);
    }
    assert(0x9aa7036 <= ratio <= 4294967296 && ratio == ratio_x32_upto(abs_tick, 15)) by {
        lemma_ratio_bound_x32(prev as int, 0x31be1360, 0x31beb65b, 0x9aa7036);
    }
    // i = 16
    let ghost prev = ratio;
    if abs_tick & 0x10000 != 0 {
        ratio = mul_factor_x32(ratio, 0x9aa508b);
    }
    assert(0x5d6c2a <= ratio <= 4294967296 && ratio == ratio_x32_upto(abs_tick, 16)) by {
        lemma_ratio_bound_x32(prev as int, 0x9aa508b, 0x9aa7036, 0x5d6c2a);
    }
    // i = 17
    let ghost prev = ratio;
    if abs_tick & 0x20000 != 0 {
        ratio = mul_factor_x32(ratio, 0x5d6af9);
    }
    assert(0x2217 <= ratio <= 4294967296 && ratio == ratio_x32_upto(abs_tick, 17)) by {
        lemma_ratio_bound_x32(prev as int, 0x5d6af9, 0x5d6c2a, 0x2217);
    }

    // Divide to obtain 1.0001^(2^(i - 1)) * 2^32 in numerator
    if tick > 0 {
        ratio = u64::MAX / ratio;
    }
    ratio
}

} // verus!
