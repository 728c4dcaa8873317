//! Most and least significant set bits of a 64-bit word.
use vstd::arithmetic::power2::*;
use vstd::bits::*;
use vstd::prelude::*;

verus! {

/// `k` is the index of the most significant set bit of `x`: `2^k <= x < 2^(k+1)`.
pub open spec fn is_most_significant_bit(x: u64, k: nat) -> bool {
    pow2(k) <= x < pow2(k + 1)
}

/// `floor(log2(x))` for `x >= 1`.
pub open spec fn floor_log2(x: nat) -> nat
    decreases x,
{
    if x <= 1 {
        0
    } else {
        1 + floor_log2(x / 2)
    }
}

/// The most significant bit of `x` is `floor(log2(x))`.
pub proof fn lemma_msb_is_floor_log2(x: u64, k: nat)
    requires
        is_most_significant_bit(x, k),
    ensures
        k == floor_log2(x as nat),
    decreases k,
{
    lemma_pow2_pos(k);
    if k == 0 {
        lemma2_to64();
    } else {
        lemma_pow2_unfold(k);
        lemma_pow2_unfold(k + 1);
        lemma_msb_is_floor_log2(x / 2, (k - 1) as nat);
    }
}

/// One halving step of the binary search for the most significant bit: with the bits of `x`
/// above `m` already consumed into `r`, testing `r` against `2^s` either keeps `r` or shifts it
/// by `s`, and `m + f` still locates the consumed bits.
proof fn lemma_msb_step(x: u64, m: u8, r: u64, s: u8, t: u64, hi: u64)
    by (bit_vector)
    requires
        s == 1 || s == 2 || s == 4 || s == 8 || s == 16 || s == 32,
        t == 1u64 << (s as u64),
        s == 32 || hi == 1u64 << ((2 * s) as u64),
        m % ((2 * s) as u8) == 0,
        m + 2 * s <= 64,
        r == x >> (m as u64),
        0 < r,
        s == 32 || r < hi,
    ensures
        ({
            let f: u8 = if r >= t { s } else { 0 };
            &&& (m | f) == m + f
            &&& ((m + f) as u8) % s == 0
            &&& m + f + s <= 64
            &&& r >> (f as u64) == x >> ((m + f) as u64)
            &&& 0 < r >> (f as u64)
            &&& r >> (f as u64) < t
        }),
{
}

/// `x >> k == 1` is the shift form of `k` being the most significant bit of `x`.
proof fn lemma_shr_one_is_msb(x: u64, k: u8)
    requires
        k < 64,
        x >> (k as u64) == 1,
    ensures
        is_most_significant_bit(x, k as nat),
{
    lemma_u64_shr_is_div(x, k as u64);
    lemma_pow2_pos(k as nat);
    lemma_pow2_unfold((k + 1) as nat);
    let p = pow2(k as nat) as int;
    assert(x as int / p == 1);
    vstd::arithmetic::div_mod::lemma_fundamental_div_mod(x as int, p);
    vstd::arithmetic::div_mod::lemma_mod_bound(x as int, p);
}

/// Returns index of the most significant non-zero bit of the number.
///
/// The result satisfies `x >= 2**msb` and `x < 2**(msb + 1)`; `x` must be greater than 0.
pub fn most_significant_bit(x: u64) -> (msb: u8)
    requires
        x > 0,
    ensures
        msb < 64,
        is_most_significant_bit(x, msb as nat),
        x >> (msb as u64) == 1,
{
    let mut r: u64 = x;
    let mut msb: u8 = 0;
    assert(x >> 0u64 == x) by (bit_vector);
    assert(0x100000000u64 == 1u64 << 32u64 && 0x10000u64 == 1u64 << 16u64 && 0x100u64 == 1u64 << 8u64
        && 0x10u64 == 1u64 << 4u64 && 0x4u64 == 1u64 << 2u64 && 0x2u64 == 1u64 << 1u64)
        by (bit_vector);

    proof { lemma_msb_step(x, msb, r, 32, 0x100000000, 0); }
    let mut f: u8 = if r >= 0x100000000 { 32 } else { 0 };
    msb = msb | f;
    r = r >> f;

    proof { lemma_msb_step(x, msb, r, 16, 0x10000, 0x100000000); }
    f = if r >= 0x10000 { 16 } else { 0 };
    msb = msb | f;
    r = r >> f;

    proof { lemma_msb_step(x, msb, r, 8, 0x100, 0x10000); }
    f = if r >= 0x100 { 8 } else { 0 };
    msb = msb | f;
    r = r >> f;

    proof { lemma_msb_step(x, msb, r, 4, 0x10, 0x100); }
    f = if r >= 0x10 { 4 } else { 0 };
    msb = msb | f;
    r = r >> f;

    proof { lemma_msb_step(x, msb, r, 2, 0x4, 0x10); }
    f = if r >= 0x4 { 2 } else { 0 };
    msb = msb | f;
    r = r >> f;

    proof { lemma_msb_step(x, msb, r, 1, 0x2, 0x4); }
    f = if r >= 0x2 { 1 } else { 0 };
    msb = msb | f;

    proof { lemma_shr_one_is_msb(x, msb); }
    msb
}

/// `k` is the index of the least significant set bit of `x`: `2^k` divides `x` and bit `k` is set.
pub open spec fn is_least_significant_bit(x: u64, k: nat) -> bool {
    &&& x as int % pow2(k) as int == 0
    &&& (x as int / pow2(k) as int) % 2 == 1
}

/// Shifting right twice is shifting right by the sum.
proof fn lemma_shr_shr(x: u64, a: u64, b: u64)
    requires
        a + b < 64,
    ensures
        (x >> a) >> b == x >> ((a + b) as u64),
{
    lemma_u64_shr_is_div(x, a);
    lemma_u64_shr_is_div(x >> a, b);
    lemma_u64_shr_is_div(x, (a + b) as u64);
    lemma_pow2_pos(a as nat);
    lemma_pow2_pos(b as nat);
    lemma_pow2_adds(a as nat, b as nat);
    vstd::arithmetic::div_mod::lemma_div_denominator(
        x as int,
        pow2(a as nat) as int,
        pow2(b as nat) as int,
    );
}

/// If the bits of `x` below `m` are clear and the low `s` bits of `x >> m` are clear, then the
/// bits of `x` below `m + s` are clear.
proof fn lemma_low_bits_clear_extend(x: u64, m: u64, s: u64)
    by (bit_vector)
    requires
        m + s < 64,
        m == 0 || x & (((1u64 << m) - 1) as u64) == 0,
        (x >> m) & (((1u64 << s) - 1) as u64) == 0,
    ensures
        x & (((1u64 << ((m + s) as u64)) - 1) as u64) == 0,
{
}

/// A set bit among the low `2s` bits of `r` that is not among its low `s` bits is among the low
/// `s` bits of `r >> s`.
proof fn lemma_next_window(r: u64, s: u64)
    by (bit_vector)
    requires
        0 < s < 32,
        r & (((1u64 << ((2 * s) as u64)) - 1) as u64) != 0,
        r & (((1u64 << s) - 1) as u64) == 0,
    ensures
        (r >> s) & (((1u64 << s) - 1) as u64) != 0,
{
}

/// One step of the binary search for the least significant bit: `r` holds `x` shifted right by
/// `m` (all bits of `x` below `m` are clear) and has a set bit among its low `2s` bits.  Testing
/// the low `s` bits either keeps `r` or shifts it by `s`.
proof fn lemma_lsb_step(x: u64, m: u8, r: u64, s: u8, mask: u64, wide: u64)
    requires
        s == 1 || s == 2 || s == 4 || s == 8 || s == 16 || s == 32,
        mask == ((1u64 << (s as u64)) - 1) as u64,
        s == 32 || wide == ((1u64 << ((2 * s) as u64)) - 1) as u64,
        m + 2 * s <= 64,
        r == x >> (m as u64),
        m == 0 || x & (((1u64 << (m as u64)) - 1) as u64) == 0,
        s == 32 || r & wide != 0,
        s != 32 || r != 0,
    ensures
        ({
            let nz = r & mask > 0;
            let m2: u8 = if nz { m } else { (m + s) as u8 };
            let r2: u64 = if nz { r } else { r >> (s as u64) };
            &&& r2 == x >> (m2 as u64)
            &&& m2 + s <= 64
            &&& (m2 == 0 || x & (((1u64 << (m2 as u64)) - 1) as u64) == 0)
            &&& r2 & mask != 0
        }),
{
    if !(r & mask > 0) {
        if s == 32 {
            assert(m == 0);
            assert(r & 0xffffffffu64 == 0 && r != 0 ==> (r >> 32u64) & 0xffffffffu64 != 0)
                by (bit_vector);
            assert(mask == 0xffffffffu64) by (bit_vector)
                requires
                    mask == ((1u64 << 32u64) - 1) as u64,
            ;
            assert(x >> 0u64 == x) by (bit_vector);
        } else {
            lemma_next_window(r, s as u64);
        }
        lemma_shr_shr(x, m as u64, s as u64);
        assert(r & mask == 0);
        lemma_low_bits_clear_extend(x, m as u64, s as u64);
    }
}

/// The last step of the least-significant-bit search, where one of the two low bits of `r` is
/// set.
proof fn lemma_lsb_last(x: u64, m: u8, r: u64)
    by (bit_vector)
    requires
        m + 2 <= 64,
        r == x >> (m as u64),
        m == 0 || x & (((1u64 << (m as u64)) - 1) as u64) == 0,
        r & 3 != 0,
    ensures
        ({
            let k: u8 = if r & 1 > 0 { m } else { (m + 1) as u8 };
            &&& k < 64
            &&& (x >> (k as u64)) & 1 == 1
            &&& (x >> (k as u64)) << (k as u64) == x
        }),
{
}

/// The shift form of bit `k` being the lowest set bit of `x` implies the arithmetic form.
proof fn lemma_shift_form_is_lsb(x: u64, k: u8)
    requires
        k < 64,
        (x >> (k as u64)) & 1 == 1,
        (x >> (k as u64)) << (k as u64) == x,
    ensures
        is_least_significant_bit(x, k as nat),
{
    let q = x >> (k as u64);
    lemma_u64_shr_is_div(x, k as u64);
    lemma_pow2_pos(k as nat);
    let p = pow2(k as nat) as int;
    vstd::arithmetic::div_mod::lemma_fundamental_div_mod(x as int, p);
    vstd::arithmetic::div_mod::lemma_mod_bound(x as int, p);
    assert(q * p <= x) by {
        vstd::arithmetic::mul::lemma_mul_is_commutative(q as int, p);
    }
    lemma_u64_shl_is_mul(q, k as u64);
    assert(x == q * p);
    vstd::arithmetic::div_mod::lemma_mod_multiples_basic(q as int, p);
    assert(q % 2 == 1) by (bit_vector)
        requires
            q & 1 == 1,
    ;
}

/// Returns index of the least significant non-zero bit of the number.
///
/// The result satisfies `(x & 2**lsb) != 0` and `(x & (2**lsb - 1)) == 0`; `x` must be greater
/// than 0.
pub fn least_significant_bit(x: u64) -> (lsb: u8)
    requires
        x > 0,
    ensures
        lsb < 64,
        is_least_significant_bit(x, lsb as nat),
        (x >> (lsb as u64)) & 1 == 1,
        (x >> (lsb as u64)) << (lsb as u64) == x,
{
    let mut r: u64 = x;
    let mut lsb: u8 = 63;
    let ghost mut m: u8 = 0;
    assert(x >> 0u64 == x) by (bit_vector);
    assert(0xffffffffu64 == (1u64 << 32u64) - 1 && 0xffffu64 == (1u64 << 16u64) - 1
        && 0xffu64 == (1u64 << 8u64) - 1 && 0xfu64 == (1u64 << 4u64) - 1
        && 0x3u64 == (1u64 << 2u64) - 1 && 0x1u64 == (1u64 << 1u64) - 1) by (bit_vector);

    proof { lemma_lsb_step(x, m, r, 32, 0xffffffff, 0); }
    if r & 0xffffffff > 0 {
        lsb = lsb - 32;
    } else {
        r = r >> 32;
        proof { m = (m + 32) as u8; }
    }
    proof { lemma_lsb_step(x, m, r, 16, 0xffff, 0xffffffff); }
    if r & 0xffff > 0 {
        lsb = lsb - 16;
    } else {
        r = r >> 16;
        proof { m = (m + 16) as u8; }
    }
    proof { lemma_lsb_step(x, m, r, 8, 0xff, 0xffff); }
    if r & 0xff > 0 {
        lsb = lsb - 8;
    } else {
        r = r >> 8;
        proof { m = (m + 8) as u8; }
    }
    proof { lemma_lsb_step(x, m, r, 4, 0xf, 0xff); }
    if r & 0xf > 0 {
        lsb = lsb - 4;
    } else {
        r = r >> 4;
        proof { m = (m + 4) as u8; }
    }
    proof { lemma_lsb_step(x, m, r, 2, 0x3, 0xf); }
    if r & 0x3 > 0 {
        lsb = lsb - 2;
    } else {
        r = r >> 2;
        proof { m = (m + 2) as u8; }
    }
    assert(lsb == m + 1);
    proof { lemma_lsb_last(x, m, r); }
    if r & 0x1 > 0 {
        lsb = lsb - 1;
    }
    proof { lemma_shift_form_is_lsb(x, lsb); }
    lsb
}

} // verus!
