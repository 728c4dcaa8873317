//! The square-root price strictly increases with the tick.
//!
//! The Q64.64 product of `get_sqrt_ratio_at_tick` is compared with the exact product of its
//! magic factors: each of the 17 truncations loses less than one unit, while moving to the next
//! tick multiplies the exact product by a ratio whose distance from one, at the smallest product
//! in range, is worth more than `2^33` units.  The Q32.32 product of `tick_math_x16` is
//! treated the same way.
//!
//! With the order of the prices, the greatest tick whose price does not exceed a given price is
//! unique, and `get_tick_at_sqrt_ratio` gives each tick back from its own price.
use crate::error::ErrorCode;
use crate::libraries::tick_math::{
    abs_tick, is_greatest_tick_at_or_below, magic_factor_x64, ratio_x64_upto,
    sqrt_ratio_at_tick_result, sqrt_ratio_at_tick_value, tick_at_sqrt_ratio_result,
    tick_at_sqrt_ratio_value, MAX_SQRT_RATIO, MAX_TICK, MIN_SQRT_RATIO, MIN_TICK,
};
use crate::libraries::tick_math_x16::{
    self, magic_factor_x32, ratio_x32_upto, sqrt_price_x32_value,
};
use crate::libraries::unsafe_math::div_ceil;
use vstd::arithmetic::power2::*;
use vstd::bits::*;
use vstd::prelude::*;

verus! {

/// Binary digit `i` of `a`.
pub open spec fn digit(a: int, i: nat) -> bool
    decreases i,
{
    if i == 0 {
        a % 2 == 1
    } else {
        digit(a / 2, (i - 1) as nat)
    }
}

/// The Q64.64 factor that bit `i` of the tick multiplies by.
pub open spec fn bit_factor(i: nat) -> int {
    if i == 0 {
        0xfffcb933bd6fb800
    } else {
        magic_factor_x64(i as int)
    }
}

/// `2^(64 * i)`.
pub open spec fn scale(i: nat) -> int
    decreases i,
{
    if i == 0 {
        1
    } else {
        scale((i - 1) as nat) * 0x10000000000000000
    }
}

/// The exact product of the factors of the bits `0..=i` of `a` (`2^64` for a clear bit), in
/// units of `2^(-64 * (i + 1))`: the untruncated counterpart of `ratio_x64_upto` scaled by
/// `scale(i)`.
pub open spec fn exact_product(a: int, i: nat) -> int
    decreases i,
{
    let m = if digit(a, i) {
        bit_factor(i)
    } else {
        0x10000000000000000
    };
    if i == 0 {
        m
    } else {
        exact_product(a, (i - 1) as nat) * m
    }
}

/// The number of trailing one bits of `a`.
pub open spec fn trailing_ones(a: nat) -> nat
    decreases a,
{
    if a % 2 == 1 {
        1 + trailing_ones(a / 2)
    } else {
        0
    }
}

/// The product of the factors of bits `0..j`.
pub open spec fn low_product(j: nat) -> int
    decreases j,
{
    if j == 0 {
        1
    } else {
        low_product((j - 1) as nat) * bit_factor((j - 1) as nat)
    }
}

/// Digit `i` is the parity of `a / 2^i`.
proof fn lemma_digit_div(a: int, i: nat)
    requires
        a >= 0,
    ensures
        digit(a, i) == ((a / pow2(i) as int) % 2 == 1),
    decreases i,
{
    if i == 0 {
        lemma2_to64();
    } else {
        lemma_digit_div(a / 2, (i - 1) as nat);
        lemma_pow2_unfold(i);
        lemma_pow2_pos((i - 1) as nat);
        vstd::arithmetic::div_mod::lemma_div_denominator(a, 2, pow2((i - 1) as nat) as int);
    }
}

/// The bit tests of `ratio_x64_upto` are the binary digits.
proof fn lemma_bit_is_digit(a: u128, i: nat)
    requires
        i < 128,
    ensures
        ((a & (1u128 << (i as u128))) != 0) == digit(a as int, i),
        ((a & 1) != 0) == digit(a as int, 0),
{
    let s = i as u128;
    assert(((a & (1u128 << s)) != 0) == ((a >> s) % 2 == 1)) by (bit_vector)
        requires
            s < 128,
    ;
    assert(((a & 1) != 0) == (a % 2 == 1)) by (bit_vector);
    lemma_u128_shr_is_div(a, s);
    lemma_digit_div(a as int, i);
    lemma_digit_div(a as int, 0);
    lemma2_to64();
}

/// Every factor lies strictly between zero and one (in Q64.64).
proof fn lemma_bit_factor_range(i: nat)
    requires
        i <= 17,
    ensures
        0 < bit_factor(i) < 0x10000000000000000,
{
}

/// The truncated product stays within `[0, 2^64]` and below the exact product, and the exact
/// product exceeds it by less than `i + 1` units.
proof fn lemma_exact_bounds(a: u128, i: nat)
    requires
        i <= 17,
    ensures
        0 <= ratio_x64_upto(a, i) <= 0x10000000000000000,
        ratio_x64_upto(a, i) * scale(i) <= exact_product(a as int, i),
        exact_product(a as int, i) < (ratio_x64_upto(a, i) + i + 1) * scale(i),
    decreases i,
{
    lemma_bit_is_digit(a, i);
    lemma_bit_factor_range(i);
    if i > 0 {
        lemma_exact_bounds(a, (i - 1) as nat);
        let r0 = ratio_x64_upto(a, (i - 1) as nat);
        let e0 = exact_product(a as int, (i - 1) as nat);
        let p0 = scale((i - 1) as nat);
        let r = ratio_x64_upto(a, i);
        let e = exact_product(a as int, i);
        let q = 0x10000000000000000int;
        assert(p0 > 0) by {
            lemma_scale_pos((i - 1) as nat);
        }
        if digit(a as int, i) {
            let f = bit_factor(i);
            assert(r == r0 * f / q);
            assert(e == e0 * f);
            vstd::arithmetic::div_mod::lemma_fundamental_div_mod(r0 * f, q);
            vstd::arithmetic::div_mod::lemma_mod_bound(r0 * f, q);
            assert(r * q <= r0 * f < (r + 1) * q);
            assert(r * (q * p0) <= e0 * f && e0 * f < (r + i + 1) * (q * p0)) by (nonlinear_arith)
                requires
                    r * q <= r0 * f,
                    r0 * f < (r + 1) * q,
                    r0 * p0 <= e0,
                    e0 < (r0 + i) * p0,
                    0 < f < q,
                    p0 > 0,
                    i >= 1,
            ;
            assert(r <= r0) by (nonlinear_arith)
                requires
                    r * q <= r0 * f,
                    0 < f < q,
                    r0 >= 0,
            ;
            vstd::arithmetic::div_mod::lemma_div_pos_is_pos(r0 * f, q);
        } else {
            assert(r == r0);
            assert(e == e0 * q);
            assert(r * (q * p0) <= e0 * q && e0 * q < (r + i + 1) * (q * p0)) by (nonlinear_arith)
                requires
                    r == r0,
                    r0 * p0 <= e0,
                    e0 < (r0 + i) * p0,
                    p0 > 0,
                    q > 0,
            ;
        }
        assert(scale(i) == p0 * q);
    }
}

/// `scale(i)` is positive.
proof fn lemma_scale_pos(i: nat)
    ensures
        scale(i) > 0,
    decreases i,
{
    if i > 0 {
        lemma_scale_pos((i - 1) as nat);
    }
}

/// Adding one clears the trailing ones of `a`, sets the bit above them and keeps the others.
proof fn lemma_successor_digits(a: nat, k: nat)
    ensures
        k < trailing_ones(a) ==> digit(a as int, k) && !digit(a + 1int, k),
        k == trailing_ones(a) ==> !digit(a as int, k) && digit(a + 1int, k),
        k > trailing_ones(a) ==> digit(a as int, k) == digit(a + 1int, k),
    decreases a,
{
    if a % 2 == 1 {
        assert((a + 1) / 2 == a / 2 + 1);
        if k > 0 {
            lemma_successor_digits(a / 2, (k - 1) as nat);
        }
    } else {
        assert((a + 1) / 2 == a / 2);
    }
}

/// `a` ends in `trailing_ones(a)` one bits, so it is at least `2^trailing_ones(a) - 1`.
proof fn lemma_trailing_ones_bound(a: nat)
    ensures
        a + 1 >= pow2(trailing_ones(a)),
    decreases a,
{
    if a % 2 == 1 {
        lemma_trailing_ones_bound(a / 2);
        lemma_pow2_unfold(trailing_ones(a));
    } else {
        lemma2_to64();
    }
}

/// Up to the lowest clear bit `j` of `a`, the exact products of `a` and `a + 1` are known
/// outright.
proof fn lemma_products_below(a: nat, i: nat)
    requires
        i <= trailing_ones(a),
    ensures
        i < trailing_ones(a) ==> exact_product(a as int, i) == low_product(i + 1)
            && exact_product(a + 1int, i) == scale(i + 1),
        i == trailing_ones(a) ==> exact_product(a as int, i) == low_product(i)
            * 0x10000000000000000 && exact_product(a + 1int, i) == scale(i) * bit_factor(i),
    decreases i,
{
    lemma_successor_digits(a, i);
    if i > 0 {
        lemma_products_below(a, (i - 1) as nat);
    }
    assert(low_product(i + 1) == low_product(i) * bit_factor(i));
    assert(scale(i + 1) == scale(i) * 0x10000000000000000);
}

/// Above the lowest clear bit `j` of `a`, the exact products of `a` and `a + 1` grow by the same
/// factors.
proof fn lemma_products_above(a: nat, j: nat, i: nat)
    requires
        j == trailing_ones(a),
        j <= i,
    ensures
        exact_product(a + 1int, i) * exact_product(a as int, j) == exact_product(a as int, i)
            * exact_product(a + 1int, j),
    decreases i,
{
    if i > j {
        lemma_products_above(a, j, (i - 1) as nat);
        lemma_successor_digits(a, i);
        let m = if digit(a as int, i) {
            bit_factor(i)
        } else {
            0x10000000000000000
        };
        let x1 = exact_product(a + 1int, (i - 1) as nat);
        let x0 = exact_product(a as int, (i - 1) as nat);
        let y0 = exact_product(a as int, j);
        let y1 = exact_product(a + 1int, j);
        assert(exact_product(a + 1int, i) == x1 * m);
        assert(exact_product(a as int, i) == x0 * m);
        assert((x1 * m) * y0 == (x0 * m) * y1) by (nonlinear_arith)
            requires
                x1 * y0 == x0 * y1,
        ;
    } else {
        vstd::arithmetic::mul::lemma_mul_is_commutative(
            exact_product(a + 1int, i),
            exact_product(a as int, j),
        );
    }
}

/// The ratio of the exact products of `a + 1` and `a` depends only on `j = trailing_ones(a)`.
proof fn lemma_successor_ratio(a: nat)
    requires
        a + 1 < 0x40000,
    ensures
        trailing_ones(a) <= 17,
        exact_product(a + 1int, 17) * (low_product(trailing_ones(a)) * 0x10000000000000000)
            == exact_product(a as int, 17) * (scale(trailing_ones(a)) * bit_factor(
            trailing_ones(a),
        )),
{
    let j = trailing_ones(a);
    lemma_trailing_ones_bound(a);
    lemma2_to64();
    if j > 18 {
        lemma_pow2_strictly_increases(18, j);
    }
    lemma_products_below(a, j);
    lemma_products_above(a, j, 17);
}

/// A lower bound of the exact product of every tick magnitude in range, with the factor that
/// separates consecutive ticks: `(2^33 + 18) * 2^(64 * 17)` units.
pub open spec fn exact_product_min() -> int {
    exact_product(221818, 17)
}

/// The exact product over the digits `0..=5` of `221818`.
#[verifier::spinoff_prover]
proof fn lemma_exact_product_221818_upto_5()
    ensures
        exact_product(221818, 5) == 0xff423afaa8ad88e67e167ca6e7ea9aca80484118846a99874c7200000000000000000000000000000000000000000000,
{
    lemma2_to64();
    reveal_with_fuel(exact_product, 2);
    lemma_digit_div(221818, 0);
    assert(221818int / pow2(0) as int == 221818);
    assert(!digit(221818, 0));
    assert(exact_product(221818, 0) == 0x10000000000000000);
    lemma_digit_div(221818, 1);
    assert(221818int / pow2(1) as int == 110909);
    assert(digit(221818, 1));
    assert(exact_product(221818, 1) == 0xfff97272373d40000000000000000000);
    lemma_digit_div(221818, 2);
    assert(221818int / pow2(2) as int == 55454);
    assert(!digit(221818, 2));
    assert(exact_product(221818, 2) == 0xfff97272373d400000000000000000000000000000000000);
    lemma_digit_div(221818, 3);
    assert(221818int / pow2(3) as int == 27727);
    assert(digit(221818, 3));
    assert(exact_product(221818, 3) == 0xffdf3de87261902564732d1d6c00000000000000000000000000000000000000);
    lemma_digit_div(221818, 4);
    assert(221818int / pow2(4) as int == 13863);
    assert(digit(221818, 4));
    assert(exact_product(221818, 4) == 0xffaadce0fb652579052642f42510713be4be33400000000000000000000000000000000000000000);
    lemma_digit_div(221818, 5);
    assert(221818int / pow2(5) as int == 6931);
    assert(digit(221818, 5));
    assert(exact_product(221818, 5) == 0xff423afaa8ad88e67e167ca6e7ea9aca80484118846a99874c7200000000000000000000000000000000000000000000);
}

/// The exact product over the digits `0..=11` of `221818`.
#[verifier::spinoff_prover]
proof fn lemma_exact_product_221818_upto_11()
    ensures
        exact_product(221818, 11) == 0xf8033145199656dad1cb3490a71cef73be4a4e026fa38bfc28b7a189f6d1bcecaac8a882c6ffe1000000000000000000000000000000000000000000000000000000000000000000000000000000000000000000000000000000000000000000,
{
    lemma2_to64();
    reveal_with_fuel(exact_product, 2);
    lemma_exact_product_221818_upto_5();
    lemma_digit_div(221818, 6);
    assert(221818int / pow2(6) as int == 3465);
    assert(digit(221818, 6));
    assert(exact_product(221818, 6) == 0xfe7177930a835688ee75664dad8271667e4f27ec2dfe8dccad6aa6514bc57610600000000000000000000000000000000000000000000000);
    lemma_digit_div(221818, 7);
    assert(221818int / pow2(7) as int == 1732);
    assert(!digit(221818, 7));
    assert(exact_product(221818, 7) == 0xfe7177930a835688ee75664dad8271667e4f27ec2dfe8dccad6aa6514bc576106000000000000000000000000000000000000000000000000000000000000000);
    lemma_digit_div(221818, 8);
    assert(221818int / pow2(8) as int == 866);
    assert(!digit(221818, 8));
    assert(exact_product(221818, 8) == 0xfe7177930a835688ee75664dad8271667e4f27ec2dfe8dccad6aa6514bc5761060000000000000000000000000000000000000000000000000000000000000000000000000000000);
    lemma_digit_div(221818, 9);
    assert(221818int / pow2(9) as int == 433);
    assert(digit(221818, 9));
    assert(exact_product(221818, 9) == 0xf8033145199656dad1cb3490a71cef73be4a4e026fa38bfc28b7a189f6d1bcecaac8a882c6ffe10000000000000000000000000000000000000000000000000000000000000000000000000000000000);
    lemma_digit_div(221818, 10);
    assert(221818int / pow2(10) as int == 216);
    assert(!digit(221818, 10));
    assert(exact_product(221818, 10) == 0xf8033145199656dad1cb3490a71cef73be4a4e026fa38bfc28b7a189f6d1bcecaac8a882c6ffe100000000000000000000000000000000000000000000000000000000000000000000000000000000000000000000000000);
    lemma_digit_div(221818, 11);
    assert(221818int / pow2(11) as int == 108);
    assert(!digit(221818, 11));
    assert(exact_product(221818, 11) == 0xf8033145199656dad1cb3490a71cef73be4a4e026fa38bfc28b7a189f6d1bcecaac8a882c6ffe1000000000000000000000000000000000000000000000000000000000000000000000000000000000000000000000000000000000000000000);
}

/// The exact product over the digits `0..=17` of `221818`.
#[verifier::spinoff_prover]
proof fn lemma_exact_product_221818_upto_17()
    ensures
        exact_product(221818, 17) == 0x100009da7faaa5c33ce2539211157a62c6d5b5ba399a0b69d4ec60eba0351efd0b7d45f110e7850a21ef3ec8f28cda0c221b797b04eaf40c981c898fab715d6ebf80000000000000000000000000000000000000000000000000000000000000000000000000000000000000000000000000000000000000000000000000000000000000000000000000000000000,
{
    lemma2_to64();
    reveal_with_fuel(exact_product, 2);
    lemma_exact_product_221818_upto_11();
    lemma_digit_div(221818, 12);
    assert(221818int / pow2(12) as int == 54);
    assert(!digit(221818, 12));
    assert(exact_product(221818, 12) == 0xf8033145199656dad1cb3490a71cef73be4a4e026fa38bfc28b7a189f6d1bcecaac8a882c6ffe10000000000000000000000000000000000000000000000000000000000000000000000000000000000000000000000000000000000000000000000000000000000);
    lemma_digit_div(221818, 13);
    assert(221818int / pow2(13) as int == 27);
    assert(digit(221818, 13));
    assert(exact_product(221818, 13) == 0xa4a9aab0041b62eeb4880465b809b296ba2efb7dc2c2cc68ce500ae75333251ac1f1c4254bf8703b72f37cf9af80000000000000000000000000000000000000000000000000000000000000000000000000000000000000000000000000000000000000000000000000000000000000);
    lemma_digit_div(221818, 14);
    assert(221818int / pow2(14) as int == 13);
    assert(digit(221818, 14));
    assert(exact_product(221818, 14) == 0x48956dc663f35b2c6e514e89a1bd2d1a91d6dc27cb2b4c35d059b3b7878a803321882e4ac0d0afee8a1b227d862a7fb10321e5b20000000000000000000000000000000000000000000000000000000000000000000000000000000000000000000000000000000000000000000000000000000000000000);
    lemma_digit_div(221818, 15);
    assert(221818int / pow2(15) as int == 6);
    assert(!digit(221818, 15));
    assert(exact_product(221818, 15) == 0x48956dc663f35b2c6e514e89a1bd2d1a91d6dc27cb2b4c35d059b3b7878a803321882e4ac0d0afee8a1b227d862a7fb10321e5b200000000000000000000000000000000000000000000000000000000000000000000000000000000000000000000000000000000000000000000000000000000000000000000000000000000);
    lemma_digit_div(221818, 16);
    assert(221818int / pow2(16) as int == 3);
    assert(digit(221818, 16));
    assert(exact_product(221818, 16) == 0x2bd8aed14a58a334a5cce9d4fd58fbef4332cfbbbbeae695a2d4cbf95a5a0433ac295302df0a86d84c345247bffaf2a2cc5a29ebcc41bed7485ba0000000000000000000000000000000000000000000000000000000000000000000000000000000000000000000000000000000000000000000000000000000000000000000000000000000000);
    lemma_digit_div(221818, 17);
    assert(221818int / pow2(17) as int == 1);
    assert(digit(221818, 17));
    assert(exact_product(221818, 17) == 0x100009da7faaa5c33ce2539211157a62c6d5b5ba399a0b69d4ec60eba0351efd0b7d45f110e7850a21ef3ec8f28cda0c221b797b04eaf40c981c898fab715d6ebf80000000000000000000000000000000000000000000000000000000000000000000000000000000000000000000000000000000000000000000000000000000000000000000000000000000000);
}

/// The exact product at the largest tick magnitude in range, the smallest there is.
proof fn lemma_exact_product_min()
    ensures
        exact_product_min() == 0x100009da7faaa5c33ce2539211157a62c6d5b5ba399a0b69d4ec60eba0351efd0b7d45f110e7850a21ef3ec8f28cda0c221b797b04eaf40c981c898fab715d6ebf80000000000000000000000000000000000000000000000000000000000000000000000000000000000000000000000000000000000000000000000000000000000000000000000000000000000,
{
    lemma_exact_product_221818_upto_17();
}

/// For every lowest clear bit `j`, the exact product shrinks by at least `2^33 + 18` units of
/// `2^(-64 * 17)` per tick, even at the smallest product in range.
proof fn lemma_ratio_margin(j: nat)
    requires
        j <= 17,
    ensures
        low_product(j) > 0,
        scale(j) * bit_factor(j) < low_product(j) * 0x10000000000000000,
        exact_product_min() * (low_product(j) * 0x10000000000000000 - scale(j) * bit_factor(j))
            >= (0x200000000 + 18) * scale(17) * (low_product(j) * 0x10000000000000000),
        exact_product_min() >= (0x100000000 + 18) * scale(17),
{
    lemma_exact_product_min();
    assert(low_product(0) == 1);
    assert(scale(0) == 1);
    assert(low_product(1) == 0xfffcb933bd6fb800);
    assert(scale(1) == 0x10000000000000000);
    assert(low_product(2) == 0xfff62bbb6d45985981040382c6000000);
    assert(scale(2) == 0x100000000000000000000000000000000);
    assert(low_product(3) == 0xffe9114b9cf29d9b561be2be8010e81c459b54a000000000);
    assert(scale(3) == 0x1000000000000000000000000000000000000000000000000);
    assert(low_product(4) == 0xffcede6f1d8c0484cab6d8314abd5dc442a05dd5d61854dda956000000000000);
    assert(scale(4) == 0x10000000000000000000000000000000000000000000000000000000000000000);
    assert(low_product(5) == 0xff9a80c1ada7722226134b5cadf78ff6b62de2bc77ba5ae5fbc133c94b2dca1fa000000000000000);
    assert(scale(5) == 0x100000000000000000000000000000000000000000000000000000000000000000000000000000000);
    assert(low_product(6) == 0xff31e58d5a5419c4a027ad25bf1d199ba13d9ec81031d0ad4efee6e0f3641237c71ac29c0433a9000000000000000000);
    assert(scale(6) == 0x1000000000000000000000000000000000000000000000000000000000000000000000000000000000000000000000000);
    assert(low_product(7) == 0xfe612f8183b280e385b5a2879e736febd7ded4dfac0d85a58738b78cdea5cf81fe3940d34eb6b0a4db6e28c9353000000000000000000000);
    assert(scale(7) == 0x10000000000000000000000000000000000000000000000000000000000000000000000000000000000000000000000000000000000000000);
    assert(low_product(8) == 0xfcc1c2f3805495f80ac4cbaa58d922391d764dfc0717e860761e67212f6a4504250da9de54e16501d4924252c82d522f66bbe282800000000000000000000000);
    assert(scale(8) == 0x100000000000000000000000000000000000000000000000000000000000000000000000000000000000000000000000000000000000000000000000000000000);
    assert(low_product(9) == 0xf98ad8c8d7ef0a9e0f9fa036584adb303668e40dac5f6b51e684be829f43d4f2c94865f53e926b957bc58062d6fdbb66f44fe6d621cc128ecf553800000000000000000000000000);
    assert(scale(9) == 0x1000000000000000000000000000000000000000000000000000000000000000000000000000000000000000000000000000000000000000000000000000000000000000000000000);
    assert(low_product(10) == 0xf33c480189b8868f62ce5a8fed8f8f402c42c68008c3029ff43a40e2c9b83abe49212c33a6bfac67ff774e80fa2c100124228b85ee53d1be38330cf5f2a7d9de9b400000000000000000000000000000);
    assert(scale(10) == 0x10000000000000000000000000000000000000000000000000000000000000000000000000000000000000000000000000000000000000000000000000000000000000000000000000000000000000000);
    assert(low_product(11) == 0xe71889a8590c5dcdc57fd94b10868527ff7f10b453ba081f7d19efaa6cf4078150316e97fefb4e7a190c9dae8ea6196e147f7d5c7e31e549725aec8294ef3cb5dd844ad341ed61f800000000000000000000000000000000);
    assert(scale(11) == 0x100000000000000000000000000000000000000000000000000000000000000000000000000000000000000000000000000000000000000000000000000000000000000000000000000000000000000000000000000000000);
    assert(low_product(12) == 0xd09a9f3e93ea6d34603750628f69199727b02262cf2620c5501e6d875a54d81472f28ac1fbe5e37a39d09d9af9bac70a58f94ca042df315c92f08a533caa4dcef540c35ec322f1f2f0097174c988800000000000000000000000000000000000);
    assert(scale(12) == 0x1000000000000000000000000000000000000000000000000000000000000000000000000000000000000000000000000000000000000000000000000000000000000000000000000000000000000000000000000000000000000000000000000);
    assert(low_product(13) == 0xa9f973345bb6e5731a60b1642626c34da029689c467097f9c0e587f1652a0120f904286d083a4cc62c9f40b9e0f295a3a52d9d9dda5c7d2b2cb750367aa88ef137750646e0ce9502f374b0e0de5e2ae64911ffc09000000000000000000000000000000000000000);
    assert(scale(13) == 0x10000000000000000000000000000000000000000000000000000000000000000000000000000000000000000000000000000000000000000000000000000000000000000000000000000000000000000000000000000000000000000000000000000000000000000);
    assert(low_product(14) == 0x70d9db648610cc80f076c9df1c9c3892d73c14838b3a3224b4682b1b9ea48bd8a2ae3eacb5a32c3171fa3d97936780c6c089716beb856f5db7ecff7b48db08bed706db52788c000e8c79dca2f22ac3c3b3192e5cfe0836b311c9b8000000000000000000000000000000000000000000);
    assert(scale(14) == 0x100000000000000000000000000000000000000000000000000000000000000000000000000000000000000000000000000000000000000000000000000000000000000000000000000000000000000000000000000000000000000000000000000000000000000000000000000000000);
    assert(low_product(15) == 0x31beb65d91cc07b103e4419329d0377c9bfcbcb7fafa565607f17a24eed5898ca0072eedbd0f8c5fa624d7880214392584fa5c2fb37b5d67c41a8af32aa8fdf55fe06cc58bef012a49925236089380b122d292e902cb199aa1272b922643f43bb82000000000000000000000000000000000000000000000);
    assert(scale(15) == 0x1000000000000000000000000000000000000000000000000000000000000000000000000000000000000000000000000000000000000000000000000000000000000000000000000000000000000000000000000000000000000000000000000000000000000000000000000000000000000000000000000);
    assert(low_product(16) == 0x9aa7036fd2e76491ba62ad69a78f4a01870412d7596b2fbdae67bd128feca65825fe6d83f3a353fe1c12f8acbf9b742d248061676d6ae96534b3bb72fc8174513723c22a012b0f4adea49c538eacb1e1b8f8cdc9e2eccb748eff96d99c5ebb2224ae6054e77ff96400000000000000000000000000000000000000000000000);
    assert(scale(16) == 0x10000000000000000000000000000000000000000000000000000000000000000000000000000000000000000000000000000000000000000000000000000000000000000000000000000000000000000000000000000000000000000000000000000000000000000000000000000000000000000000000000000000000000000);
    assert(low_product(17) == 0x5d6c2af97b81a7ce9ac48e5199b518634e98c2302bc409062050451a31c18915a03e661c91339cbd36801d49d98d2562e1c1626dafb52667b742e657125715fc1d2b94043ca8b70bb16529863a13f7a82a311bae61dde9074c5079c18715a156fbeefb4c7b21dac6f5125a498b1740000000000000000000000000000000000000000000000000);
    assert(scale(17) == 0x100000000000000000000000000000000000000000000000000000000000000000000000000000000000000000000000000000000000000000000000000000000000000000000000000000000000000000000000000000000000000000000000000000000000000000000000000000000000000000000000000000000000000000000000000000000);
    if j == 0 {
        assert(low_product(0) == 1);
        assert(scale(0) == 1);
        assert(low_product(0) * 0x10000000000000000 - scale(0) * bit_factor(0) == 0x346cc42904800);
    } else if j == 1 {
        assert(low_product(1) * 0x10000000000000000 - scale(1) * bit_factor(1) == 0x346c1863278000000000000000000);
    } else if j == 2 {
        assert(low_product(2) * 0x10000000000000000 - scale(2) * bit_factor(2) == 0x346ac0de0285981040382c60000000000000000000000);
    } else if j == 3 {
        assert(low_product(3) * 0x10000000000000000 - scale(3) * bit_factor(3) == 0x346811ee1ad9b561be2be8010e81c459b54a0000000000000000000000000);
    } else if j == 4 {
        assert(low_product(4) * 0x10000000000000000 - scale(4) * bit_factor(4) == 0x3462b477c9484cab6d8314abd5dc442a05dd5d61854dda9560000000000000000000000000000);
    } else if j == 5 {
        assert(low_product(5) * 0x10000000000000000 - scale(5) * bit_factor(5) == 0x3457fb30e8a2226134b5cadf78ff6b62de2bc77ba5ae5fbc133c94b2dca1fa0000000000000000000000000000000);
    } else if j == 6 {
        assert(low_product(6) * 0x10000000000000000 - scale(6) * bit_factor(6) == 0x34428f38a69c4a027ad25bf1d199ba13d9ec81031d0ad4efee6e0f3641237c71ac29c0433a90000000000000000000000000000000000);
    } else if j == 7 {
        assert(low_product(7) * 0x10000000000000000 - scale(7) * bit_factor(7) == 0x3417d191848e385b5a2879e736febd7ded4dfac0d85a58738b78cdea5cf81fe3940d34eb6b0a4db6e28c93530000000000000000000000000000000000000);
    } else if j == 8 {
        assert(low_product(8) * 0x10000000000000000 - scale(8) * bit_factor(8) == 0x33c2bf048e5f80ac4cbaa58d922391d764dfc0717e860761e67212f6a4504250da9de54e16501d4924252c82d522f66bbe2828000000000000000000000000000000000000000);
    } else if j == 9 {
        assert(low_product(9) * 0x10000000000000000 - scale(9) * bit_factor(9) == 0x331a39d28b29e0f9fa036584adb303668e40dac5f6b51e684be829f43d4f2c94865f53e926b957bc58062d6fdbb66f44fe6d621cc128ecf5538000000000000000000000000000000000000000000);
    } else if j == 10 {
        assert(low_product(10) * 0x10000000000000000 - scale(10) * bit_factor(10) == 0x31cf966fd268f62ce5a8fed8f8f402c42c68008c3029ff43a40e2c9b83abe49212c33a6bfac67ff774e80fa2c100124228b85ee53d1be38330cf5f2a7d9de9b4000000000000000000000000000000000000000000000);
    } else if j == 11 {
        assert(low_product(11) * 0x10000000000000000 - scale(11) * bit_factor(11) == 0x2f532b6416dcdc57fd94b10868527ff7f10b453ba081f7d19efaa6cf4078150316e97fefb4e7a190c9dae8ea6196e147f7d5c7e31e549725aec8294ef3cb5dd844ad341ed61f8000000000000000000000000000000000000000000000000);
    } else if j == 12 {
        assert(low_product(12) * 0x10000000000000000 - scale(12) * bit_factor(12) == 0x2ab8096bb4d34603750628f69199727b02262cf2620c5501e6d875a54d81472f28ac1fbe5e37a39d09d9af9bac70a58f94ca042df315c92f08a533caa4dcef540c35ec322f1f2f0097174c9888000000000000000000000000000000000000000000000000000);
    } else if j == 13 {
        assert(low_product(13) * 0x10000000000000000 - scale(13) * bit_factor(13) == 0x22cee2e1765731a60b1642626c34da029689c467097f9c0e587f1652a0120f904286d083a4cc62c9f40b9e0f295a3a52d9d9dda5c7d2b2cb750367aa88ef137750646e0ce9502f374b0e0de5e2ae64911ffc090000000000000000000000000000000000000000000000000000000);
    } else if j == 14 {
        assert(low_product(14) * 0x10000000000000000 - scale(14) * bit_factor(14) == 0x171c32f1db080f076c9df1c9c3892d73c14838b3a3224b4682b1b9ea48bd8a2ae3eacb5a32c3171fa3d97936780c6c089716beb856f5db7ecff7b48db08bed706db52788c000e8c79dca2f22ac3c3b3192e5cfe0836b311c9b80000000000000000000000000000000000000000000000000000000000);
    } else if j == 15 {
        assert(low_product(15) * 0x10000000000000000 - scale(15) * bit_factor(15) == 0xa2fdf9ded5b103e4419329d0377c9bfcbcb7fafa565607f17a24eed5898ca0072eedbd0f8c5fa624d7880214392584fa5c2fb37b5d67c41a8af32aa8fdf55fe06cc58bef012a49925236089380b122d292e902cb199aa1272b922643f43bb820000000000000000000000000000000000000000000000000000000000000);
    } else if j == 16 {
        assert(low_product(16) * 0x10000000000000000 - scale(16) * bit_factor(16) == 0x1faba1a8d1491ba62ad69a78f4a01870412d7596b2fbdae67bd128feca65825fe6d83f3a353fe1c12f8acbf9b742d248061676d6ae96534b3bb72fc8174513723c22a012b0f4adea49c538eacb1e1b8f8cdc9e2eccb748eff96d99c5ebb2224ae6054e77ff964000000000000000000000000000000000000000000000000000000000000000);
    } else if j == 17 {
        assert(low_product(17) * 0x10000000000000000 - scale(17) * bit_factor(17) == 0x1321a9f297bce9ac48e5199b518634e98c2302bc409062050451a31c18915a03e661c91339cbd36801d49d98d2562e1c1626dafb52667b742e657125715fc1d2b94043ca8b70bb16529863a13f7a82a311bae61dde9074c5079c18715a156fbeefb4c7b21dac6f5125a498b17400000000000000000000000000000000000000000000000000000000000000000);
    }
}

/// Every exact product is positive.
proof fn lemma_exact_product_pos(a: int, i: nat)
    requires
        i <= 17,
    ensures
        exact_product(a, i) > 0,
    decreases i,
{
    lemma_bit_factor_range(i);
    if i > 0 {
        lemma_exact_product_pos(a, (i - 1) as nat);
        let e0 = exact_product(a, (i - 1) as nat);
        let m = if digit(a, i) {
            bit_factor(i)
        } else {
            0x10000000000000000
        };
        vstd::arithmetic::mul::lemma_mul_strictly_positive(e0, m);
    }
}

/// The exact product strictly shrinks from one tick magnitude to the next.
proof fn lemma_exact_product_decreases(a: nat)
    requires
        a + 1 < 0x40000,
    ensures
        exact_product(a + 1int, 17) < exact_product(a as int, 17),
{
    lemma_successor_ratio(a);
    let j = trailing_ones(a);
    lemma_ratio_margin(j);
    lemma_exact_product_pos(a as int, 17);
    lemma_exact_product_pos(a + 1int, 17);
    let e0 = exact_product(a as int, 17);
    let e1 = exact_product(a + 1int, 17);
    let big = low_product(j) * 0x10000000000000000;
    let small = scale(j) * bit_factor(j);
    assert(e1 < e0) by (nonlinear_arith)
        requires
            e1 * big == e0 * small,
            small < big,
            e0 > 0,
            big > 0,
    ;
}

/// Every tick magnitude in range has an exact product at least the one of the largest.
proof fn lemma_exact_product_at_least_min(a: nat)
    requires
        a <= 221818,
    ensures
        exact_product(a as int, 17) >= exact_product_min(),
    decreases 221818 - a,
{
    if a < 221818 {
        lemma_exact_product_at_least_min(a + 1);
        lemma_exact_product_decreases(a);
    }
}

/// Consecutive tick magnitudes in range have Q64.64 ratios more than `2^33` apart, and the
/// smaller one exceeds `2^32`.
proof fn lemma_ratio_gap(b: nat)
    requires
        b + 1 <= 221818,
    ensures
        ratio_x64_upto(b as u128, 17) >= ratio_x64_upto((b + 1) as u128, 17) + 0x200000000,
        ratio_x64_upto((b + 1) as u128, 17) > 0x100000000,
        ratio_x64_upto(b as u128, 17) <= 0x10000000000000000,
{
    lemma_exact_bounds(b as u128, 17);
    lemma_exact_bounds((b + 1) as u128, 17);
    lemma_successor_ratio(b);
    let j = trailing_ones(b);
    lemma_ratio_margin(j);
    lemma_exact_product_at_least_min(b);
    lemma_exact_product_at_least_min(b + 1);
    lemma_scale_pos(17);
    let r0 = ratio_x64_upto(b as u128, 17);
    let r1 = ratio_x64_upto((b + 1) as u128, 17);
    let e0 = exact_product(b as int, 17);
    let e1 = exact_product(b + 1int, 17);
    let d = scale(17);
    let big = low_product(j) * 0x10000000000000000;
    let small = scale(j) * bit_factor(j);
    let emin = exact_product_min();
    assert(e0 - e1 >= (0x200000000 + 18) * d) by (nonlinear_arith)
        requires
            e1 * big == e0 * small,
            small < big,
            big > 0,
            e0 >= emin,
            emin * (big - small) >= (0x200000000 + 18) * d * big,
    ;
    assert(r0 >= r1 + 0x200000000 && r1 > 0x100000000) by (nonlinear_arith)
        requires
            e0 < (r0 + 18) * d,
            r1 * d <= e1,
            e1 < (r1 + 18) * d,
            e0 - e1 >= (0x200000000 + 18) * d,
            e1 >= emin,
            emin >= (0x100000000 + 18) * d,
            d > 0,
    ;
}

/// Rounding up to 32 fractional bits keeps a gap of at least `2^32` strict.
proof fn lemma_ceil_gap(x: int, y: int)
    requires
        0 <= x,
        y >= x + 0x100000000,
    ensures
        div_ceil(x, 0x100000000) < div_ceil(y, 0x100000000),
{
    let d = 0x100000000int;
    vstd::arithmetic::div_mod::lemma_div_is_ordered(x + d - 1 + d, y + d - 1, d);
    vstd::arithmetic::div_mod::lemma_div_plus_one(x + d - 1, d);
}

/// `m / d >= q` when `q * d <= m`.
proof fn lemma_quotient_at_least(q: int, d: int, m: int)
    requires
        d > 0,
        q * d <= m,
    ensures
        m / d >= q,
{
    vstd::arithmetic::div_mod::lemma_div_is_ordered(q * d, m, d);
    vstd::arithmetic::div_mod::lemma_div_multiples_vanish(q, d);
    vstd::arithmetic::mul::lemma_mul_is_commutative(q, d);
}

/// The square-root price strictly increases from each tick in range to the next.
proof fn lemma_sqrt_ratio_next_tick(t: i32)
    requires
        MIN_TICK <= t < MAX_TICK,
    ensures
        sqrt_ratio_at_tick_value(t) < sqrt_ratio_at_tick_value((t + 1) as i32),
{
    let u = u128::MAX as int;
    let q = 0x100000000int;
    if t < 0 {
        let b = (-(t + 1)) as nat;
        lemma_ratio_gap(b);
        assert(abs_tick(t) as u128 == (b + 1) as u128);
        assert(abs_tick((t + 1) as i32) as u128 == b as u128);
        lemma_ceil_gap(ratio_x64_upto((b + 1) as u128, 17), ratio_x64_upto(b as u128, 17));
    } else if t == 0 {
        lemma_ratio_gap(0);
        let r0 = ratio_x64_upto(0u128, 17);
        let r1 = ratio_x64_upto(1u128, 17);
        assert(abs_tick(1i32) as u128 == 1u128);
        assert(abs_tick(0i32) as u128 == 0u128);
        assert(r1 <= 0x10000000000000000 - 1);
        assert((0x10000000000000001 * r1) <= u) by (nonlinear_arith)
            requires
                0 < r1 <= 0x10000000000000000 - 1,
                u == 0xffffffffffffffffffffffffffffffff,
        ;
        lemma_quotient_at_least(0x10000000000000001, r1, u);
        vstd::arithmetic::div_mod::lemma_div_is_ordered(r0 + q - 1, 0x10000000000000000 + q - 1, q);
        vstd::arithmetic::div_mod::lemma_div_is_ordered(
            0x10000000000000001 + q - 1,
            u / r1 + q - 1,
            q,
        );
        assert(div_ceil(r0, q) <= q);
        assert(div_ceil(u / r1, q) >= q + 1);
    } else {
        let b = t as nat;
        lemma_ratio_gap(b);
        let r0 = ratio_x64_upto(b as u128, 17);
        let r1 = ratio_x64_upto((b + 1) as u128, 17);
        assert(abs_tick(t) as u128 == b as u128);
        assert(abs_tick((t + 1) as i32) as u128 == (b + 1) as u128);
        let x = u / r0;
        vstd::arithmetic::div_mod::lemma_fundamental_div_mod(u, r0);
        vstd::arithmetic::div_mod::lemma_mod_bound(u, r0);
        lemma_quotient_at_least(0xffffffffffffffff, r0, u);
        assert((x + q) * r1 <= u) by (nonlinear_arith)
            requires
                x * r0 <= u,
                r0 >= r1 + 0x200000000,
                r1 > 0,
                r1 <= 0x10000000000000000,
                x >= 0xffffffffffffffff,
                q == 0x100000000,
        ;
        lemma_quotient_at_least(x + q, r1, u);
        vstd::arithmetic::div_mod::lemma_div_pos_is_pos(u, r0);
        lemma_ceil_gap(x, u / r1);
    }
}

/// The square-root price strictly increases with the tick over the whole tick range:
/// `get_sqrt_ratio_at_tick` is strictly monotonic.
pub proof fn lemma_sqrt_ratio_at_tick_increasing(t1: i32, t2: i32)
    requires
        MIN_TICK <= t1 < t2 <= MAX_TICK,
    ensures
        sqrt_ratio_at_tick_value(t1) < sqrt_ratio_at_tick_value(t2),
    decreases t2 - t1,
{
    lemma_sqrt_ratio_next_tick(t1);
    if t1 + 1 < t2 {
        lemma_sqrt_ratio_at_tick_increasing((t1 + 1) as i32, t2);
    }
}

/// The square-root price does not decrease with the tick.
proof fn lemma_sqrt_ratio_at_tick_nondecreasing(t1: i32, t2: i32)
    requires
        MIN_TICK <= t1 <= t2 <= MAX_TICK,
    ensures
        sqrt_ratio_at_tick_value(t1) <= sqrt_ratio_at_tick_value(t2),
{
    if t1 < t2 {
        lemma_sqrt_ratio_at_tick_increasing(t1, t2);
    }
}

/// Two greatest ticks at or below the same price are the same tick.
proof fn lemma_greatest_ticks_equal(x: u64, t1: int, t2: int)
    requires
        is_greatest_tick_at_or_below(x, t1),
        is_greatest_tick_at_or_below(x, t2),
    ensures
        t1 == t2,
{
    if t1 < t2 {
        lemma_sqrt_ratio_at_tick_nondecreasing((t1 + 1) as i32, t2 as i32);
    } else if t2 < t1 {
        lemma_sqrt_ratio_at_tick_nondecreasing((t2 + 1) as i32, t1 as i32);
    }
}

/// A tick at or below `h` whose price does not exceed `x` exists (counting `MIN_TICK - 1`), and
/// when the price one tick above `h` exceeds `x`, the greatest of them is the greatest tick at or
/// below `x` overall.
proof fn lemma_greatest_tick_found_below(x: u64, h: int)
    requires
        MIN_TICK - 1 <= h <= MAX_TICK,
        h < MAX_TICK ==> x < sqrt_ratio_at_tick_value((h + 1) as i32),
    ensures
        exists|t: int| is_greatest_tick_at_or_below(x, t),
    decreases h - MIN_TICK + 1,
{
    if h < MIN_TICK || sqrt_ratio_at_tick_value(h as i32) <= x {
        assert(is_greatest_tick_at_or_below(x, h));
    } else {
        lemma_greatest_tick_found_below(x, h - 1);
    }
}

/// Every price has its greatest tick at or below it.
pub proof fn lemma_greatest_tick_exists(x: u64)
    ensures
        is_greatest_tick_at_or_below(x, tick_at_sqrt_ratio_value(x)),
{
    lemma_greatest_tick_found_below(x, MAX_TICK as int);
}

/// A tick that is greatest at or below `x` is the one that `get_tick_at_sqrt_ratio` gives.
pub proof fn lemma_greatest_tick_unique(x: u64, t: int)
    requires
        is_greatest_tick_at_or_below(x, t),
    ensures
        tick_at_sqrt_ratio_value(x) == t,
{
    lemma_greatest_tick_exists(x);
    lemma_greatest_ticks_equal(x, t, tick_at_sqrt_ratio_value(x));
}

/// `get_tick_at_sqrt_ratio` gives the greatest tick whose price does not exceed `x`: the tick, in
/// `[MIN_TICK - 1, MAX_TICK]`, has a price at most `x` when it is in range, and every greater
/// tick in range has a price above `x`.
pub proof fn lemma_tick_at_sqrt_ratio_greatest(x: u64, t: i32)
    requires
        MIN_SQRT_RATIO <= x < MAX_SQRT_RATIO,
        MIN_TICK <= t <= MAX_TICK,
    ensures
        tick_at_sqrt_ratio_result(x) matches Ok(r) && {
            &&& MIN_TICK - 1 <= r <= MAX_TICK
            &&& MIN_TICK <= r ==> sqrt_ratio_at_tick_value(r) <= x
            &&& r < t ==> x < sqrt_ratio_at_tick_value(t)
        },
{
    lemma_greatest_tick_exists(x);
    let r = tick_at_sqrt_ratio_value(x);
    if r < t {
        lemma_sqrt_ratio_at_tick_nondecreasing((r + 1) as i32, t);
    }
}

/// The tick comes back from its own price: for every tick in range, `get_tick_at_sqrt_ratio` of
/// `get_sqrt_ratio_at_tick(t)` is `t`.
pub proof fn lemma_tick_at_sqrt_ratio_round_trip(t: i32)
    requires
        MIN_TICK <= t <= MAX_TICK,
    ensures
        sqrt_ratio_at_tick_result(t) matches Ok(x) && tick_at_sqrt_ratio_result(x) == Ok::<
            i32,
            ErrorCode,
        >(t),
{
    lemma_sqrt_ratio_at_tick_bounds(t);
    let x = sqrt_ratio_at_tick_value(t) as u64;
    assert(is_greatest_tick_at_or_below(x, t as int)) by {
        if t < MAX_TICK {
            lemma_sqrt_ratio_at_tick_increasing(t, (t + 1) as i32);
        }
    }
    lemma_greatest_tick_unique(x, t as int);
}

/// The square-root price of every tick in range lies among the prices that
/// `get_tick_at_sqrt_ratio` accepts, `[MIN_SQRT_RATIO, MAX_SQRT_RATIO)`.
pub proof fn lemma_sqrt_ratio_at_tick_bounds(t: i32)
    requires
        MIN_TICK <= t <= MAX_TICK,
    ensures
        MIN_SQRT_RATIO <= sqrt_ratio_at_tick_value(t) < MAX_SQRT_RATIO,
{
    lemma_exact_bounds(221818, 17);
    lemma_exact_product_min();
    reveal_with_fuel(scale, 18);
    let s = scale(17);
    assert(s == 0x100000000000000000000000000000000000000000000000000000000000000000000000000000000000000000000000000000000000000000000000000000000000000000000000000000000000000000000000000000000000000000000000000000000000000000000000000000000000000000000000000000000000000000000000000000000);
    let r = ratio_x64_upto(221818, 17);
    let e = exact_product(221818, 17);
    assert(r >= 0x1000000100000) by {
        assert(e < (r + 18) * s);
    }
    assert(abs_tick(MIN_TICK) as u128 == 221818u128);
    assert(abs_tick(MAX_TICK) as u128 == 221818u128);
    let d = 0x100000000int;
    assert(sqrt_ratio_at_tick_value(MIN_TICK) == div_ceil(r, d));
    vstd::arithmetic::div_mod::lemma_div_is_ordered(0x1000000000000 + d - 1, r + d - 1, d);
    let q = u128::MAX as int / r;
    assert(sqrt_ratio_at_tick_value(MAX_TICK) == div_ceil(q, d));
    vstd::arithmetic::div_mod::lemma_div_is_ordered_by_denominator(
        u128::MAX as int,
        0x1000000100000,
        r,
    );
    assert(u128::MAX as int / 0x1000000100000 == 0xfffffff0000000ffffff);
    vstd::arithmetic::div_mod::lemma_div_is_ordered(q + d - 1, 0xffffffffffff00000000 + d - 1, d);
    lemma_sqrt_ratio_at_tick_nondecreasing(MIN_TICK, t);
    lemma_sqrt_ratio_at_tick_nondecreasing(t, MAX_TICK);
}

/// The Q32.32 factor that bit `i` of the tick multiplies by.
pub open spec fn bit_factor_x32(i: nat) -> int {
    if i == 0 {
        0xfffcb934
    } else {
        magic_factor_x32(i as int)
    }
}

/// `2^(32 * i)`.
pub open spec fn scale_x32(i: nat) -> int
    decreases i,
{
    if i == 0 {
        1
    } else {
        scale_x32((i - 1) as nat) * 0x100000000
    }
}

/// The exact product of the factors of the bits `0..=i` of `a` (`2^32` for a clear bit), in
/// units of `2^(-64 * (i + 1))`: the untruncated counterpart of `ratio_x32_upto` scaled by
/// `scale_x32(i)`.
pub open spec fn exact_product_x32(a: int, i: nat) -> int
    decreases i,
{
    let m = if digit(a, i) {
        bit_factor_x32(i)
    } else {
        0x100000000
    };
    if i == 0 {
        m
    } else {
        exact_product_x32(a, (i - 1) as nat) * m
    }
}

/// The product of the factors of bits `0..j`.
pub open spec fn low_product_x32(j: nat) -> int
    decreases j,
{
    if j == 0 {
        1
    } else {
        low_product_x32((j - 1) as nat) * bit_factor_x32((j - 1) as nat)
    }
}

/// The bit tests of `ratio_x32_upto` are the binary digits.
proof fn lemma_bit_is_digit_x32(a: u64, i: nat)
    requires
        i < 64,
    ensures
        ((a & (1u64 << (i as u64))) != 0) == digit(a as int, i),
        ((a & 1) != 0) == digit(a as int, 0),
{
    let s = i as u64;
    assert(((a & (1u64 << s)) != 0) == ((a >> s) % 2 == 1)) by (bit_vector)
        requires
            s < 64,
    ;
    assert(((a & 1) != 0) == (a % 2 == 1)) by (bit_vector);
    lemma_u64_shr_is_div(a, s);
    lemma_digit_div(a as int, i);
    lemma_digit_div(a as int, 0);
    lemma2_to64();
}

/// Every factor lies strictly between zero and one (in Q32.32).
proof fn lemma_bit_factor_range_x32(i: nat)
    requires
        i <= 17,
    ensures
        0 < bit_factor_x32(i) < 0x100000000,
{
}

/// The truncated product stays within `[0, 2^64]` and below the exact product, and the exact
/// product exceeds it by less than `i + 1` units.
proof fn lemma_exact_bounds_x32(a: u64, i: nat)
    requires
        i <= 17,
    ensures
        0 <= ratio_x32_upto(a, i) <= 0x100000000,
        ratio_x32_upto(a, i) * scale_x32(i) <= exact_product_x32(a as int, i),
        exact_product_x32(a as int, i) < (ratio_x32_upto(a, i) + i + 1) * scale_x32(i),
    decreases i,
{
    lemma_bit_is_digit_x32(a, i);
    lemma_bit_factor_range_x32(i);
    if i > 0 {
        lemma_exact_bounds_x32(a, (i - 1) as nat);
        let r0 = ratio_x32_upto(a, (i - 1) as nat);
        let e0 = exact_product_x32(a as int, (i - 1) as nat);
        let p0 = scale_x32((i - 1) as nat);
        let r = ratio_x32_upto(a, i);
        let e = exact_product_x32(a as int, i);
        let q = 0x100000000int;
        assert(p0 > 0) by {
            lemma_scale_pos_x32((i - 1) as nat);
        }
        if digit(a as int, i) {
            let f = bit_factor_x32(i);
            assert(r == r0 * f / q);
            assert(e == e0 * f);
            vstd::arithmetic::div_mod::lemma_fundamental_div_mod(r0 * f, q);
            vstd::arithmetic::div_mod::lemma_mod_bound(r0 * f, q);
            assert(r * q <= r0 * f < (r + 1) * q);
            assert(r * (q * p0) <= e0 * f && e0 * f < (r + i + 1) * (q * p0)) by (nonlinear_arith)
                requires
                    r * q <= r0 * f,
                    r0 * f < (r + 1) * q,
                    r0 * p0 <= e0,
                    e0 < (r0 + i) * p0,
                    0 < f < q,
                    p0 > 0,
                    i >= 1,
            ;
            assert(r <= r0) by (nonlinear_arith)
                requires
                    r * q <= r0 * f,
                    0 < f < q,
                    r0 >= 0,
            ;
            vstd::arithmetic::div_mod::lemma_div_pos_is_pos(r0 * f, q);
        } else {
            assert(r == r0);
            assert(e == e0 * q);
            assert(r * (q * p0) <= e0 * q && e0 * q < (r + i + 1) * (q * p0)) by (nonlinear_arith)
                requires
                    r == r0,
                    r0 * p0 <= e0,
                    e0 < (r0 + i) * p0,
                    p0 > 0,
                    q > 0,
            ;
        }
        assert(scale_x32(i) == p0 * q);
    }
}

/// `scale_x32(i)` is positive.
proof fn lemma_scale_pos_x32(i: nat)
    ensures
        scale_x32(i) > 0,
    decreases i,
{
    if i > 0 {
        lemma_scale_pos_x32((i - 1) as nat);
    }
}

/// Up to the lowest clear bit `j` of `a`, the exact products of `a` and `a + 1` are known
/// outright.
proof fn lemma_products_below_x32(a: nat, i: nat)
    requires
        i <= trailing_ones(a),
    ensures
        i < trailing_ones(a) ==> exact_product_x32(a as int, i) == low_product_x32(i + 1)
            && exact_product_x32(a + 1int, i) == scale_x32(i + 1),
        i == trailing_ones(a) ==> exact_product_x32(a as int, i) == low_product_x32(i)
            * 0x100000000 && exact_product_x32(a + 1int, i) == scale_x32(i) * bit_factor_x32(i),
    decreases i,
{
    lemma_successor_digits(a, i);
    if i > 0 {
        lemma_products_below_x32(a, (i - 1) as nat);
    }
    assert(low_product_x32(i + 1) == low_product_x32(i) * bit_factor_x32(i));
    assert(scale_x32(i + 1) == scale_x32(i) * 0x100000000);
}

/// Above the lowest clear bit `j` of `a`, the exact products of `a` and `a + 1` grow by the same
/// factors.
proof fn lemma_products_above_x32(a: nat, j: nat, i: nat)
    requires
        j == trailing_ones(a),
        j <= i,
    ensures
        exact_product_x32(a + 1int, i) * exact_product_x32(a as int, j) == exact_product_x32(a as int, i)
            * exact_product_x32(a + 1int, j),
    decreases i,
{
    if i > j {
        lemma_products_above_x32(a, j, (i - 1) as nat);
        lemma_successor_digits(a, i);
        let m = if digit(a as int, i) {
            bit_factor_x32(i)
        } else {
            0x100000000
        };
        let x1 = exact_product_x32(a + 1int, (i - 1) as nat);
        let x0 = exact_product_x32(a as int, (i - 1) as nat);
        let y0 = exact_product_x32(a as int, j);
        let y1 = exact_product_x32(a + 1int, j);
        assert(exact_product_x32(a + 1int, i) == x1 * m);
        assert(exact_product_x32(a as int, i) == x0 * m);
        assert((x1 * m) * y0 == (x0 * m) * y1) by (nonlinear_arith)
            requires
                x1 * y0 == x0 * y1,
        ;
    } else {
        vstd::arithmetic::mul::lemma_mul_is_commutative(
            exact_product_x32(a + 1int, i),
            exact_product_x32(a as int, j),
        );
    }
}

/// The ratio of the exact products of `a + 1` and `a` depends only on `j = trailing_ones(a)`.
proof fn lemma_successor_ratio_x32(a: nat)
    requires
        a + 1 < 0x40000,
    ensures
        trailing_ones(a) <= 17,
        exact_product_x32(a + 1int, 17) * (low_product_x32(trailing_ones(a)) * 0x100000000)
            == exact_product_x32(a as int, 17) * (scale_x32(trailing_ones(a)) * bit_factor_x32(
            trailing_ones(a),
        )),
{
    let j = trailing_ones(a);
    lemma_trailing_ones_bound(a);
    lemma2_to64();
    if j > 18 {
        lemma_pow2_strictly_increases(18, j);
    }
    lemma_products_below_x32(a, j);
    lemma_products_above_x32(a, j, 17);
}

/// Every exact product is positive.
proof fn lemma_exact_product_pos_x32(a: int, i: nat)
    requires
        i <= 17,
    ensures
        exact_product_x32(a, i) > 0,
    decreases i,
{
    lemma_bit_factor_range_x32(i);
    if i > 0 {
        lemma_exact_product_pos_x32(a, (i - 1) as nat);
        let e0 = exact_product_x32(a, (i - 1) as nat);
        let m = if digit(a, i) {
            bit_factor_x32(i)
        } else {
            0x100000000
        };
        vstd::arithmetic::mul::lemma_mul_strictly_positive(e0, m);
    }
}

/// The exact product strictly shrinks from one tick magnitude to the next.
proof fn lemma_exact_product_decreases_x32(a: nat)
    requires
        a + 1 < 0x40000,
    ensures
        exact_product_x32(a + 1int, 17) < exact_product_x32(a as int, 17),
{
    lemma_successor_ratio_x32(a);
    let j = trailing_ones(a);
    lemma_ratio_margin_x32(j);
    lemma_exact_product_pos_x32(a as int, 17);
    lemma_exact_product_pos_x32(a + 1int, 17);
    let e0 = exact_product_x32(a as int, 17);
    let e1 = exact_product_x32(a + 1int, 17);
    let big = low_product_x32(j) * 0x100000000;
    let small = scale_x32(j) * bit_factor_x32(j);
    assert(e1 < e0) by (nonlinear_arith)
        requires
            e1 * big == e0 * small,
            small < big,
            e0 > 0,
            big > 0,
    ;
}


/// The exact product over the digits `0..=5` of `131071`.
#[verifier::spinoff_prover]
proof fn lemma_exact_product_x32_131071_upto_5()
    ensures
        exact_product_x32(131071, 5) == 0xff31e58cb803f389bca75dfef5b29209e7216a3d7257e380,
{
    lemma2_to64();
    reveal_with_fuel(exact_product_x32, 2);
    lemma_digit_div(131071, 0);
    assert(131071int / pow2(0) as int == 131071);
    assert(digit(131071, 0));
    assert(exact_product_x32(131071, 0) == 0xfffcb934);
    lemma_digit_div(131071, 1);
    assert(131071int / pow2(1) as int == 65535);
    assert(digit(131071, 1));
    assert(exact_product_x32(131071, 1) == 0xfff62bbb7897a128);
    lemma_digit_div(131071, 2);
    assert(131071int / pow2(2) as int == 32767);
    assert(digit(131071, 2));
    assert(exact_product_x32(131071, 2) == 0xffe9114b48e24bb8e3db3958);
    lemma_digit_div(131071, 3);
    assert(131071int / pow2(3) as int == 16383);
    assert(digit(131071, 3));
    assert(exact_product_x32(131071, 3) == 0xffcede6e4b7ea8c4f9aad4e7b9f2af70);
    lemma_digit_div(131071, 4);
    assert(131071int / pow2(4) as int == 8191);
    assert(digit(131071, 4));
    assert(exact_product_x32(131071, 4) == 0xff9a80c105ad99ab4abced1965c354272a7119c0);
    lemma_digit_div(131071, 5);
    assert(131071int / pow2(5) as int == 4095);
    assert(digit(131071, 5));
    assert(exact_product_x32(131071, 5) == 0xff31e58cb803f389bca75dfef5b29209e7216a3d7257e380);
}

/// The exact product over the digits `0..=11` of `131071`.
#[verifier::spinoff_prover]
proof fn lemma_exact_product_x32_131071_upto_11()
    ensures
        exact_product_x32(131071, 11) == 0xd09a9f3dc567b6980e68cd6a30c587f9e23177ec1af92abbcc6a7af11f1378777090b8555eac5b0cc8bdf107d1040000,
{
    lemma2_to64();
    reveal_with_fuel(exact_product_x32, 2);
    lemma_exact_product_x32_131071_upto_5();
    lemma_digit_div(131071, 6);
    assert(131071int / pow2(6) as int == 2047);
    assert(digit(131071, 6));
    assert(exact_product_x32(131071, 6) == 0xfe612f807b702afe535f5e26ce0b15ab629b170e98ce3c5151685e00);
    lemma_digit_div(131071, 7);
    assert(131071int / pow2(7) as int == 1023);
    assert(digit(131071, 7));
    assert(exact_product_x32(131071, 7) == 0xfcc1c2f20fd4532c2ad6068bab8d65b0716a5f9195c6110eb79cab2273057800);
    lemma_digit_div(131071, 8);
    assert(131071int / pow2(8) as int == 511);
    assert(digit(131071, 8));
    assert(exact_product_x32(131071, 8) == 0xf98ad8c7daa7c2dab65c9237d72abbf5324ab03c869cffedd555865860c47b4dc915c000);
    lemma_digit_div(131071, 9);
    assert(131071int / pow2(9) as int == 255);
    assert(digit(131071, 9));
    assert(exact_product_x32(131071, 9) == 0xf33c4800598d2f8487120b9c2a7e97c99602490ccc9ca6492a90d3506eba3571d770c2a38064c000);
    lemma_digit_div(131071, 10);
    assert(131071int / pow2(10) as int == 127);
    assert(digit(131071, 10));
    assert(exact_product_x32(131071, 10) == 0xe71889a7170f4397e41cf2de129f3848bcba2c587c69af7d2e856f440e08854db2a4cb9b357ec45baf660000);
    lemma_digit_div(131071, 11);
    assert(131071int / pow2(11) as int == 63);
    assert(digit(131071, 11));
    assert(exact_product_x32(131071, 11) == 0xd09a9f3dc567b6980e68cd6a30c587f9e23177ec1af92abbcc6a7af11f1378777090b8555eac5b0cc8bdf107d1040000);
}

/// The exact product over the digits `0..=17` of `131071`.
#[verifier::spinoff_prover]
proof fn lemma_exact_product_x32_131071_upto_17()
    ensures
        exact_product_x32(131071, 17) == 0x5d6c2af60e0d945153ec6306956f22118a4f2338a603b0d2c1e14f343217ec2d25ec4d6f1e581e50bcf1f2f66bd3ee8915916b81969a45a5cfe89f7fde7b16ca00000000000000,
{
    lemma2_to64();
    reveal_with_fuel(exact_product_x32, 2);
    lemma_exact_product_x32_131071_upto_11();
    lemma_digit_div(131071, 12);
    assert(131071int / pow2(12) as int == 31);
    assert(digit(131071, 12));
    assert(exact_product_x32(131071, 12) == 0xa9f97333b5bd86c234b1813f9e078419eed9b9c867ba7a87535a111d373345d1a5b5c3a101a8b9ddf5fd71e8ce32d88fecf80000);
    lemma_digit_div(131071, 13);
    assert(131071int / pow2(13) as int == 15);
    assert(digit(131071, 13));
    assert(exact_product_x32(131071, 13) == 0x70d9db63f9941ba8bed5f919a5952c10d7e0661e652bc8f8e91662fe37efc6a4e0c84b280da280f973822bb0283152103f6bed6e9bd00000);
    lemma_digit_div(131071, 14);
    assert(131071int / pow2(14) as int == 7);
    assert(digit(131071, 14));
    assert(exact_product_x32(131071, 14) == 0x31beb65d2d8a5c4edf5c3ceb2dd2272fde8bf12643eb357b0df5f25784a6a00a43bad7c4748d4b522f1bd633f70037c9db22012be0c127f84dd00000);
    lemma_digit_div(131071, 15);
    assert(131071int / pow2(15) as int == 3);
    assert(digit(131071, 15));
    assert(exact_product_x32(131071, 15) == 0x9aa7036fdec95adf406e645d56d881106d7347d24c6b3322c2ca01b1a8fb7f6daf1ced902320a9ad396a2f9a82e8ba8aefb0c6bf76c7a24cf94fb439e000000);
    lemma_digit_div(131071, 16);
    assert(131071int / pow2(16) as int == 1);
    assert(digit(131071, 16));
    assert(exact_product_x32(131071, 16) == 0x5d6c2af60e0d945153ec6306956f22118a4f2338a603b0d2c1e14f343217ec2d25ec4d6f1e581e50bcf1f2f66bd3ee8915916b81969a45a5cfe89f7fde7b16ca000000);
    lemma_digit_div(131071, 17);
    assert(131071int / pow2(17) as int == 0);
    assert(!digit(131071, 17));
    assert(exact_product_x32(131071, 17) == 0x5d6c2af60e0d945153ec6306956f22118a4f2338a603b0d2c1e14f343217ec2d25ec4d6f1e581e50bcf1f2f66bd3ee8915916b81969a45a5cfe89f7fde7b16ca00000000000000);
}

/// The exact product over the digits `0..=5` of `221818`.
#[verifier::spinoff_prover]
proof fn lemma_exact_product_x32_221818_upto_5()
    ensures
        exact_product_x32(221818, 5) == 0xff423afa2316ccea3915284bffd1eda00000000000000000,
{
    lemma2_to64();
    reveal_with_fuel(exact_product_x32, 2);
    lemma_digit_div(221818, 0);
    assert(221818int / pow2(0) as int == 221818);
    assert(!digit(221818, 0));
    assert(exact_product_x32(221818, 0) == 0x100000000);
    lemma_digit_div(221818, 1);
    assert(221818int / pow2(1) as int == 110909);
    assert(digit(221818, 1));
    assert(exact_product_x32(221818, 1) == 0xfff9727200000000);
    lemma_digit_div(221818, 2);
    assert(221818int / pow2(2) as int == 55454);
    assert(!digit(221818, 2));
    assert(exact_product_x32(221818, 2) == 0xfff972720000000000000000);
    lemma_digit_div(221818, 3);
    assert(221818int / pow2(3) as int == 27727);
    assert(digit(221818, 3));
    assert(exact_product_x32(221818, 3) == 0xffdf3de7bd1c41f40000000000000000);
    lemma_digit_div(221818, 4);
    assert(221818int / pow2(4) as int == 13863);
    assert(digit(221818, 4));
    assert(exact_product_x32(221818, 4) == 0xffaadce0703024f15b2664d00000000000000000);
    lemma_digit_div(221818, 5);
    assert(221818int / pow2(5) as int == 6931);
    assert(digit(221818, 5));
    assert(exact_product_x32(221818, 5) == 0xff423afa2316ccea3915284bffd1eda00000000000000000);
}

/// The exact product over the digits `0..=11` of `221818`.
#[verifier::spinoff_prover]
proof fn lemma_exact_product_x32_221818_upto_11()
    ensures
        exact_product_x32(221818, 11) == 0xf8033143f97937e1082cee40bbede5d8377f4461d47c0c80000000000000000000000000000000000000000000000000,
{
    lemma2_to64();
    reveal_with_fuel(exact_product_x32, 2);
    lemma_exact_product_x32_221818_upto_5();
    lemma_digit_div(221818, 6);
    assert(221818int / pow2(6) as int == 3465);
    assert(digit(221818, 6));
    assert(exact_product_x32(221818, 6) == 0xfe7177921edc5dfd2cb9ae558c159cfe073272800000000000000000);
    lemma_digit_div(221818, 7);
    assert(221818int / pow2(7) as int == 1732);
    assert(!digit(221818, 7));
    assert(exact_product_x32(221818, 7) == 0xfe7177921edc5dfd2cb9ae558c159cfe07327280000000000000000000000000);
    lemma_digit_div(221818, 8);
    assert(221818int / pow2(8) as int == 866);
    assert(!digit(221818, 8));
    assert(exact_product_x32(221818, 8) == 0xfe7177921edc5dfd2cb9ae558c159cfe0732728000000000000000000000000000000000);
    lemma_digit_div(221818, 9);
    assert(221818int / pow2(9) as int == 433);
    assert(digit(221818, 9));
    assert(exact_product_x32(221818, 9) == 0xf8033143f97937e1082cee40bbede5d8377f4461d47c0c8000000000000000000000000000000000);
    lemma_digit_div(221818, 10);
    assert(221818int / pow2(10) as int == 216);
    assert(!digit(221818, 10));
    assert(exact_product_x32(221818, 10) == 0xf8033143f97937e1082cee40bbede5d8377f4461d47c0c800000000000000000000000000000000000000000);
    lemma_digit_div(221818, 11);
    assert(221818int / pow2(11) as int == 108);
    assert(!digit(221818, 11));
    assert(exact_product_x32(221818, 11) == 0xf8033143f97937e1082cee40bbede5d8377f4461d47c0c80000000000000000000000000000000000000000000000000);
}

/// The exact product over the digits `0..=17` of `221818`.
#[verifier::spinoff_prover]
proof fn lemma_exact_product_x32_221818_upto_17()
    ensures
        exact_product_x32(221818, 17) == 0x100009df71fcadf43b1c32765f0bb4fecea79b81837106a47a1b361b13f23772efb0d5099f1000000000000000000000000000000000000000000000000000000000000000000,
{
    lemma2_to64();
    reveal_with_fuel(exact_product_x32, 2);
    lemma_exact_product_x32_221818_upto_11();
    lemma_digit_div(221818, 12);
    assert(221818int / pow2(12) as int == 54);
    assert(!digit(221818, 12));
    assert(exact_product_x32(221818, 12) == 0xf8033143f97937e1082cee40bbede5d8377f4461d47c0c8000000000000000000000000000000000000000000000000000000000);
    lemma_digit_div(221818, 13);
    assert(221818int / pow2(13) as int == 27);
    assert(digit(221818, 13));
    assert(exact_product_x32(221818, 13) == 0xa4a9aaaf189ec8a5d4f15c6721f4385af026883b89295aca94d66b0000000000000000000000000000000000000000000000000000000000);
    lemma_digit_div(221818, 14);
    assert(221818int / pow2(14) as int == 13);
    assert(digit(221818, 14));
    assert(exact_product_x32(221818, 14) == 0x48956dc5c43866f9753d78b50090e880db8039cdd459eb50754a942dd4bc4b0000000000000000000000000000000000000000000000000000000000);
    lemma_digit_div(221818, 15);
    assert(221818int / pow2(15) as int == 6);
    assert(!digit(221818, 15));
    assert(exact_product_x32(221818, 15) == 0x48956dc5c43866f9753d78b50090e880db8039cdd459eb50754a942dd4bc4b000000000000000000000000000000000000000000000000000000000000000000);
    lemma_digit_div(221818, 16);
    assert(221818int / pow2(16) as int == 3);
    assert(digit(221818, 16));
    assert(exact_product_x32(221818, 16) == 0x2bd8aecf4aab0c65194e226635092db849fc7bddfd5e21a7de96c1300b6ab0a27acb9000000000000000000000000000000000000000000000000000000000000000000);
    lemma_digit_div(221818, 17);
    assert(221818int / pow2(17) as int == 1);
    assert(digit(221818, 17));
    assert(exact_product_x32(221818, 17) == 0x100009df71fcadf43b1c32765f0bb4fecea79b81837106a47a1b361b13f23772efb0d5099f1000000000000000000000000000000000000000000000000000000000000000000);
}

/// The exact products of `2^17 - 1`, the largest magnitude below bit 17, and of the largest
/// magnitude in range.
proof fn lemma_exact_product_x32_bounds_in_range()
    ensures
        exact_product_x32(131071, 17) == 0x5d6c2af60e0d945153ec6306956f22118a4f2338a603b0d2c1e14f343217ec2d25ec4d6f1e581e50bcf1f2f66bd3ee8915916b81969a45a5cfe89f7fde7b16ca00000000000000,
        exact_product_x32(221818, 17) == 0x100009df71fcadf43b1c32765f0bb4fecea79b81837106a47a1b361b13f23772efb0d5099f1000000000000000000000000000000000000000000000000000000000000000000,
{
    lemma_exact_product_x32_131071_upto_17();
    lemma_exact_product_x32_221818_upto_17();
}

/// For every lowest clear bit `j`, the 32-bit exact product shrinks by at least 19 units of
/// `2^(-32 * 17)` per tick below magnitude `2^17`, and by at least 2 units above it.
proof fn lemma_ratio_margin_x32(j: nat)
    requires
        j <= 17,
    ensures
        low_product_x32(j) > 0,
        scale_x32(j) * bit_factor_x32(j) < low_product_x32(j) * 0x100000000,
        exact_product_x32(131071, 17) * (low_product_x32(j) * 0x100000000 - scale_x32(j)
            * bit_factor_x32(j)) >= 19 * scale_x32(17) * (low_product_x32(j) * 0x100000000),
        exact_product_x32(221818, 17) * (low_product_x32(j) * 0x100000000 - scale_x32(j)
            * bit_factor_x32(j)) >= 2 * scale_x32(17) * (low_product_x32(j) * 0x100000000),
        exact_product_x32(221818, 17) >= 19 * scale_x32(17),
{
    lemma_exact_product_x32_bounds_in_range();
    assert(low_product_x32(0) == 1);
    assert(scale_x32(0) == 1);
    assert(low_product_x32(1) == 0xfffcb934);
    assert(scale_x32(1) == 0x100000000);
    assert(low_product_x32(2) == 0xfff62bbb7897a128);
    assert(scale_x32(2) == 0x10000000000000000);
    assert(low_product_x32(3) == 0xffe9114b48e24bb8e3db3958);
    assert(scale_x32(3) == 0x1000000000000000000000000);
    assert(low_product_x32(4) == 0xffcede6e4b7ea8c4f9aad4e7b9f2af70);
    assert(scale_x32(4) == 0x100000000000000000000000000000000);
    assert(low_product_x32(5) == 0xff9a80c105ad99ab4abced1965c354272a7119c0);
    assert(scale_x32(5) == 0x10000000000000000000000000000000000000000);
    assert(low_product_x32(6) == 0xff31e58cb803f389bca75dfef5b29209e7216a3d7257e380);
    assert(scale_x32(6) == 0x1000000000000000000000000000000000000000000000000);
    assert(low_product_x32(7) == 0xfe612f807b702afe535f5e26ce0b15ab629b170e98ce3c5151685e00);
    assert(scale_x32(7) == 0x100000000000000000000000000000000000000000000000000000000);
    assert(low_product_x32(8) == 0xfcc1c2f20fd4532c2ad6068bab8d65b0716a5f9195c6110eb79cab2273057800);
    assert(scale_x32(8) == 0x10000000000000000000000000000000000000000000000000000000000000000);
    assert(low_product_x32(9) == 0xf98ad8c7daa7c2dab65c9237d72abbf5324ab03c869cffedd555865860c47b4dc915c000);
    assert(scale_x32(9) == 0x1000000000000000000000000000000000000000000000000000000000000000000000000);
    assert(low_product_x32(10) == 0xf33c4800598d2f8487120b9c2a7e97c99602490ccc9ca6492a90d3506eba3571d770c2a38064c000);
    assert(scale_x32(10) == 0x100000000000000000000000000000000000000000000000000000000000000000000000000000000);
    assert(low_product_x32(11) == 0xe71889a7170f4397e41cf2de129f3848bcba2c587c69af7d2e856f440e08854db2a4cb9b357ec45baf660000);
    assert(scale_x32(11) == 0x10000000000000000000000000000000000000000000000000000000000000000000000000000000000000000);
    assert(low_product_x32(12) == 0xd09a9f3dc567b6980e68cd6a30c587f9e23177ec1af92abbcc6a7af11f1378777090b8555eac5b0cc8bdf107d1040000);
    assert(scale_x32(12) == 0x1000000000000000000000000000000000000000000000000000000000000000000000000000000000000000000000000);
    assert(low_product_x32(13) == 0xa9f97333b5bd86c234b1813f9e078419eed9b9c867ba7a87535a111d373345d1a5b5c3a101a8b9ddf5fd71e8ce32d88fecf80000);
    assert(scale_x32(13) == 0x100000000000000000000000000000000000000000000000000000000000000000000000000000000000000000000000000000000);
    assert(low_product_x32(14) == 0x70d9db63f9941ba8bed5f919a5952c10d7e0661e652bc8f8e91662fe37efc6a4e0c84b280da280f973822bb0283152103f6bed6e9bd00000);
    assert(scale_x32(14) == 0x10000000000000000000000000000000000000000000000000000000000000000000000000000000000000000000000000000000000000000);
    assert(low_product_x32(15) == 0x31beb65d2d8a5c4edf5c3ceb2dd2272fde8bf12643eb357b0df5f25784a6a00a43bad7c4748d4b522f1bd633f70037c9db22012be0c127f84dd00000);
    assert(scale_x32(15) == 0x1000000000000000000000000000000000000000000000000000000000000000000000000000000000000000000000000000000000000000000000000);
    assert(low_product_x32(16) == 0x9aa7036fdec95adf406e645d56d881106d7347d24c6b3322c2ca01b1a8fb7f6daf1ced902320a9ad396a2f9a82e8ba8aefb0c6bf76c7a24cf94fb439e000000);
    assert(scale_x32(16) == 0x100000000000000000000000000000000000000000000000000000000000000000000000000000000000000000000000000000000000000000000000000000000);
    assert(low_product_x32(17) == 0x5d6c2af60e0d945153ec6306956f22118a4f2338a603b0d2c1e14f343217ec2d25ec4d6f1e581e50bcf1f2f66bd3ee8915916b81969a45a5cfe89f7fde7b16ca000000);
    assert(scale_x32(17) == 0x10000000000000000000000000000000000000000000000000000000000000000000000000000000000000000000000000000000000000000000000000000000000000000);
    if j == 0 {
        assert(low_product_x32(0) * 0x100000000 - scale_x32(0) * bit_factor_x32(0) == 0x346cc);
    } else if j == 1 {
        assert(low_product_x32(1) * 0x100000000 - scale_x32(1) * bit_factor_x32(1) == 0x346c200000000);
    } else if j == 2 {
        assert(low_product_x32(2) * 0x100000000 - scale_x32(2) * bit_factor_x32(2) == 0x346ac7897a12800000000);
    } else if j == 3 {
        assert(low_product_x32(3) * 0x100000000 - scale_x32(3) * bit_factor_x32(3) == 0x3468148e24bb8e3db395800000000);
    } else if j == 4 {
        assert(low_product_x32(4) * 0x100000000 - scale_x32(4) * bit_factor_x32(4) == 0x3462a4b7ea8c4f9aad4e7b9f2af7000000000);
    } else if j == 5 {
        assert(low_product_x32(5) * 0x100000000 - scale_x32(5) * bit_factor_x32(5) == 0x3457f05ad99ab4abced1965c354272a7119c000000000);
    } else if j == 6 {
        assert(low_product_x32(6) * 0x100000000 - scale_x32(6) * bit_factor_x32(6) == 0x34428b803f389bca75dfef5b29209e7216a3d7257e38000000000);
    } else if j == 7 {
        assert(low_product_x32(7) * 0x100000000 - scale_x32(7) * bit_factor_x32(7) == 0x3417c7b702afe535f5e26ce0b15ab629b170e98ce3c5151685e0000000000);
    } else if j == 8 {
        assert(low_product_x32(8) * 0x100000000 - scale_x32(8) * bit_factor_x32(8) == 0x33c2a0fd4532c2ad6068bab8d65b0716a5f9195c6110eb79cab227305780000000000);
    } else if j == 9 {
        assert(low_product_x32(9) * 0x100000000 - scale_x32(9) * bit_factor_x32(9) == 0x331a2daa7c2dab65c9237d72abbf5324ab03c869cffedd555865860c47b4dc915c00000000000);
    } else if j == 10 {
        assert(low_product_x32(10) * 0x100000000 - scale_x32(10) * bit_factor_x32(10) == 0x31cf8598d2f8487120b9c2a7e97c99602490ccc9ca6492a90d3506eba3571d770c2a38064c00000000000);
    } else if j == 11 {
        assert(low_product_x32(11) * 0x100000000 - scale_x32(11) * bit_factor_x32(11) == 0x2f531170f4397e41cf2de129f3848bcba2c587c69af7d2e856f440e08854db2a4cb9b357ec45baf66000000000000);
    } else if j == 12 {
        assert(low_product_x32(12) * 0x100000000 - scale_x32(12) * bit_factor_x32(12) == 0x2ab7fc567b6980e68cd6a30c587f9e23177ec1af92abbcc6a7af11f1378777090b8555eac5b0cc8bdf107d104000000000000);
    } else if j == 13 {
        assert(low_product_x32(13) * 0x100000000 - scale_x32(13) * bit_factor_x32(13) == 0x22cedb5bd86c234b1813f9e078419eed9b9c867ba7a87535a111d373345d1a5b5c3a101a8b9ddf5fd71e8ce32d88fecf8000000000000);
    } else if j == 14 {
        assert(low_product_x32(14) * 0x100000000 - scale_x32(14) * bit_factor_x32(14) == 0x171c2f9941ba8bed5f919a5952c10d7e0661e652bc8f8e91662fe37efc6a4e0c84b280da280f973822bb0283152103f6bed6e9bd0000000000000);
    } else if j == 15 {
        assert(low_product_x32(15) * 0x100000000 - scale_x32(15) * bit_factor_x32(15) == 0xa2fd2d8a5c4edf5c3ceb2dd2272fde8bf12643eb357b0df5f25784a6a00a43bad7c4748d4b522f1bd633f70037c9db22012be0c127f84dd0000000000000);
    } else if j == 16 {
        assert(low_product_x32(16) * 0x100000000 - scale_x32(16) * bit_factor_x32(16) == 0x1fabfdec95adf406e645d56d881106d7347d24c6b3322c2ca01b1a8fb7f6daf1ced902320a9ad396a2f9a82e8ba8aefb0c6bf76c7a24cf94fb439e00000000000000);
    } else if j == 17 {
        assert(low_product_x32(17) * 0x100000000 - scale_x32(17) * bit_factor_x32(17) == 0x131f60e0d945153ec6306956f22118a4f2338a603b0d2c1e14f343217ec2d25ec4d6f1e581e50bcf1f2f66bd3ee8915916b81969a45a5cfe89f7fde7b16ca00000000000000);
    }
}

/// Every tick magnitude up to `bound` has a 32-bit exact product at least that of `bound`.
proof fn lemma_exact_product_x32_at_least(a: nat, bound: nat)
    requires
        a <= bound,
        bound < 0x40000,
    ensures
        exact_product_x32(a as int, 17) >= exact_product_x32(bound as int, 17),
    decreases bound - a,
{
    if a < bound {
        lemma_exact_product_x32_at_least(a + 1, bound);
        lemma_exact_product_decreases_x32(a);
    }
}

/// With bit 17 set, the last truncation shrinks the error of the earlier ones by the factor of
/// bit 17, leaving less than `1 + 17 * f17 / 2^32` units.
proof fn lemma_exact_bounds_x32_bit17(a: u64)
    requires
        digit(a as int, 17),
    ensures
        exact_product_x32(a as int, 17) * 0x100000000 < (ratio_x32_upto(a, 17) * 0x100000000
            + 0x100000000 + 17 * 0x5d6af9) * scale_x32(17),
{
    lemma_exact_bounds_x32(a, 16);
    lemma_bit_is_digit_x32(a, 17);
    lemma_scale_pos_x32(16);
    let r0 = ratio_x32_upto(a, 16);
    let e0 = exact_product_x32(a as int, 16);
    let p0 = scale_x32(16);
    let r = ratio_x32_upto(a, 17);
    let f = 0x5d6af9int;
    let q = 0x100000000int;
    assert(bit_factor_x32(17) == f);
    assert(r == r0 * f / q);
    assert(exact_product_x32(a as int, 17) == e0 * f);
    vstd::arithmetic::div_mod::lemma_fundamental_div_mod(r0 * f, q);
    vstd::arithmetic::div_mod::lemma_mod_bound(r0 * f, q);
    assert((e0 * f) * q < (r * q + q + 17 * f) * (p0 * q)) by (nonlinear_arith)
        requires
            r0 * f < (r + 1) * q,
            q * (r0 * f / q) + (r0 * f) % q == r0 * f,
            e0 < (r0 + 17) * p0,
            0 < f,
            p0 > 0,
            q > 0,
            r == r0 * f / q,
    ;
    assert(scale_x32(17) == p0 * q);
}

/// Magnitudes from `2^17` up to the largest in range have bit 17 set.
proof fn lemma_bit_17_set(b: nat)
    requires
        0x20000 <= b < 0x40000,
    ensures
        digit(b as int, 17),
{
    lemma_digit_div(b as int, 17);
    lemma2_to64();
    vstd::arithmetic::div_mod::lemma_div_is_ordered(0x20000, b as int, 0x20000);
    vstd::arithmetic::div_mod::lemma_div_is_ordered(b as int, 0x3ffff, 0x20000);
}

/// Consecutive tick magnitudes in range have strictly decreasing 32-bit ratios.
proof fn lemma_ratio_gap_x32(b: nat)
    requires
        b + 1 <= 221818,
    ensures
        ratio_x32_upto(b as u64, 17) > ratio_x32_upto((b + 1) as u64, 17) > 0,
        ratio_x32_upto(b as u64, 17) <= 0x100000000,
{
    lemma_exact_bounds_x32(b as u64, 17);
    lemma_exact_bounds_x32((b + 1) as u64, 17);
    lemma_successor_ratio_x32(b);
    let j = trailing_ones(b);
    lemma_ratio_margin_x32(j);
    lemma_scale_pos_x32(17);
    lemma_exact_product_x32_at_least(b + 1, 221818);
    let r0 = ratio_x32_upto(b as u64, 17);
    let r1 = ratio_x32_upto((b + 1) as u64, 17);
    let e0 = exact_product_x32(b as int, 17);
    let e1 = exact_product_x32(b + 1int, 17);
    let d = scale_x32(17);
    let big = low_product_x32(j) * 0x100000000;
    let small = scale_x32(j) * bit_factor_x32(j);
    let emin_b = exact_product_x32(221818, 17);
    assert(r1 > 0) by (nonlinear_arith)
        requires
            e1 < (r1 + 18) * d,
            e1 >= emin_b,
            emin_b >= 19 * d,
            d > 0,
    ;
    if b <= 131071 {
        lemma_exact_product_x32_at_least(b, 131071);
        let emin_a = exact_product_x32(131071, 17);
        assert(e0 - e1 >= 19 * d) by (nonlinear_arith)
            requires
                e1 * big == e0 * small,
                small < big,
                big > 0,
                e0 >= emin_a,
                emin_a * (big - small) >= 19 * d * big,
        ;
        assert(r0 > r1) by (nonlinear_arith)
            requires
                e0 < (r0 + 18) * d,
                r1 * d <= e1,
                e0 - e1 >= 19 * d,
                d > 0,
        ;
    } else {
        lemma_exact_product_x32_at_least(b, 221818);
        lemma_bit_17_set(b);
        lemma_exact_bounds_x32_bit17(b as u64);
        assert(e0 - e1 >= 2 * d) by (nonlinear_arith)
            requires
                e1 * big == e0 * small,
                small < big,
                big > 0,
                e0 >= emin_b,
                emin_b * (big - small) >= 2 * d * big,
        ;
        assert(r0 > r1) by (nonlinear_arith)
            requires
                e0 * 0x100000000 < (r0 * 0x100000000 + 0x100000000 + 17 * 0x5d6af9) * d,
                r1 * d <= e1,
                e0 - e1 >= 2 * d,
                d > 0,
        ;
    }
}

/// The 32-bit square-root price strictly increases from each tick in range to the next.
proof fn lemma_sqrt_price_x32_next_tick(t: i32)
    requires
        tick_math_x16::MIN_TICK <= t < tick_math_x16::MAX_TICK,
    ensures
        sqrt_price_x32_value(t) < sqrt_price_x32_value((t + 1) as i32),
{
    let u = u64::MAX as int;
    if t < 0 {
        let b = (-(t + 1)) as nat;
        lemma_ratio_gap_x32(b);
        assert((-t) as u64 == (b + 1) as u64);
    } else if t == 0 {
        lemma_ratio_gap_x32(0);
        let r0 = ratio_x32_upto(0u64, 17);
        let r1 = ratio_x32_upto(1u64, 17);
        assert((0x100000001 * r1) <= u) by (nonlinear_arith)
            requires
                0 < r1 <= 0x100000000 - 1,
                u == 0xffffffffffffffff,
        ;
        lemma_quotient_at_least(0x100000001, r1, u);
    } else {
        let b = t as nat;
        lemma_ratio_gap_x32(b);
        let r0 = ratio_x32_upto(b as u64, 17);
        let r1 = ratio_x32_upto((b + 1) as u64, 17);
        let x = u / r0;
        vstd::arithmetic::div_mod::lemma_fundamental_div_mod(u, r0);
        vstd::arithmetic::div_mod::lemma_mod_bound(u, r0);
        lemma_quotient_at_least(0xffffffff, r0, u);
        assert((x + 1) * r1 <= u) by (nonlinear_arith)
            requires
                x * r0 <= u,
                r0 >= r1 + 1,
                r1 > 0,
                r0 <= 0x100000000,
                x >= 0xffffffff,
        ;
        lemma_quotient_at_least(x + 1, r1, u);
    }
}

/// The 32-bit square-root price strictly increases with the tick over the whole tick range:
/// `tick_math_x16::sqrt_price_x32` is strictly monotonic.
pub proof fn lemma_sqrt_price_x32_increasing(t1: i32, t2: i32)
    requires
        tick_math_x16::MIN_TICK <= t1 < t2 <= tick_math_x16::MAX_TICK,
    ensures
        sqrt_price_x32_value(t1) < sqrt_price_x32_value(t2),
    decreases t2 - t1,
{
    lemma_sqrt_price_x32_next_tick(t1);
    if t1 + 1 < t2 {
        lemma_sqrt_price_x32_increasing((t1 + 1) as i32, t2);
    }
}

} // verus!
