//! Division helpers without overflow concerns.
use vstd::prelude::*;

verus! {

/// `ceil(x / y)` for `y > 0`.
pub open spec fn div_ceil(x: int, y: int) -> int {
    (x + y - 1) / y
}

/// The rounded-up quotient is the truncated quotient, plus one when there is a remainder.
pub proof fn lemma_div_ceil_split(x: int, y: int)
    requires
        x >= 0,
        y > 0,
    ensures
        div_ceil(x, y) == x / y + (if x % y != 0 { 1int } else { 0 }),
        y > 1 && x % y != 0 ==> x / y < x,
{
    vstd::arithmetic::div_mod::lemma_fundamental_div_mod(x, y);
    vstd::arithmetic::div_mod::lemma_mod_bound(x, y);
    let q = x / y;
    let r = x % y;
    assert(x == y * q + r);
    vstd::arithmetic::mul::lemma_mul_is_commutative(y, q);
    vstd::arithmetic::mul::lemma_mul_is_commutative(y, q + 1);
    vstd::arithmetic::div_mod::lemma_div_pos_is_pos(x, y);
    if r > 0 {
        assert(x + y - 1 == (q + 1) * y + (r - 1)) by (nonlinear_arith)
            requires
                x == y * q + r,
        ;
        vstd::arithmetic::div_mod::lemma_fundamental_div_mod_converse(x + y - 1, y, q + 1, r - 1);
        if y > 1 {
            assert(q < x) by (nonlinear_arith)
                requires
                    x == y * q + r,
                    y > 1,
                    r > 0,
                    q >= 0,
            ;
        }
    } else {
        vstd::arithmetic::div_mod::lemma_fundamental_div_mod_converse(x + y - 1, y, q, y - 1);
    }
}

/// Returns `ceil(x / y)`: the quotient, plus one when the division leaves a remainder.
pub fn div_rounding_up(x: u64, y: u64) -> (z: u64)
    requires
        y > 0,
    ensures
        z == div_ceil(x as int, y as int),
{
    let q = x / y;
    let r = x % y;
    proof {
        lemma_div_ceil_split(x as int, y as int);
    }
    if r > 0 {
        q + 1
    } else {
        q
    }
}

} // verus!
