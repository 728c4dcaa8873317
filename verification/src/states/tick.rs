//! Tick states and the calculations on them.
use crate::error::ErrorCode;
use crate::libraries::liquidity_math::{add_delta, add_delta_result};
use crate::libraries::tick_math::{MAX_TICK, MIN_TICK};
use vstd::prelude::*;

verus! {

/// `x` reduced modulo `2^64`.
pub open spec fn wrap_u64(x: int) -> u64 {
    (x % 0x10000000000000000) as u64
}

/// `x` reduced modulo `2^32`.
pub open spec fn wrap_u32(x: int) -> u32 {
    (x % 0x100000000) as u32
}

/// `x` reduced modulo `2^64` into the signed range.
pub open spec fn wrap_i64(x: int) -> i64 {
    let m = x % 0x10000000000000000;
    if m > i64::MAX {
        (m - 0x10000000000000000) as i64
    } else {
        m as i64
    }
}

/// `a - b` modulo `2^64`.
pub fn wrapping_sub_u64(a: u64, b: u64) -> (r: u64)
    ensures
        r == wrap_u64(a - b),
{
    proof {
        if a >= b {
            vstd::arithmetic::div_mod::lemma_small_mod((a - b) as nat, 0x10000000000000000);
        } else {
            vstd::arithmetic::div_mod::lemma_fundamental_div_mod_converse(
                a - b,
                0x10000000000000000,
                -1,
                a - b + 0x10000000000000000,
            );
        }
    }
    a.wrapping_sub(b)
}

/// `a - b` modulo `2^32`.
pub fn wrapping_sub_u32(a: u32, b: u32) -> (r: u32)
    ensures
        r == wrap_u32(a - b),
{
    proof {
        if a >= b {
            vstd::arithmetic::div_mod::lemma_small_mod((a - b) as nat, 0x100000000);
        } else {
            vstd::arithmetic::div_mod::lemma_fundamental_div_mod_converse(
                a - b,
                0x100000000,
                -1,
                a - b + 0x100000000,
            );
        }
    }
    a.wrapping_sub(b)
}

/// `a - b` modulo `2^64`, in the signed range.
pub fn wrapping_sub_i64(a: i64, b: i64) -> (r: i64)
    ensures
        r == wrap_i64(a - b),
{
    proof {
        let d = a - b;
        if d < 0 {
            vstd::arithmetic::div_mod::lemma_fundamental_div_mod_converse(
                d,
                0x10000000000000000,
                -1,
                d + 0x10000000000000000,
            );
        } else {
            vstd::arithmetic::div_mod::lemma_small_mod(d as nat, 0x10000000000000000);
        }
    }
    a.wrapping_sub(b)
}

/// Account storing info for a price tick.
///
/// PDA of `[token_0, token_1, fee, tick]`
#[derive(Clone, Copy, Debug, Default, PartialEq, Eq, Structural)]
pub struct TickState {
    /// Bump to identify PDA
    pub bump: u8,
    /// The price tick whose info is stored in the account
    pub tick: i32,
    /// Amount of net liquidity added (subtracted) when tick is crossed from left to right
    /// (right to left)
    pub liquidity_net: i64,
    /// The total position liquidity that references this tick
    pub liquidity_gross: u64,
    /// Fee growth per unit of liquidity on the _other_ side of this tick (relative to the
    /// current tick); only has relative meaning, not absolute — the value depends on when the
    /// tick is initialized
    pub fee_growth_outside_0_x32: u64,
    pub fee_growth_outside_1_x32: u64,
    /// The cumulative tick value on the other side of the tick
    pub tick_cumulative_outside: i64,
    /// The seconds per unit of liquidity on the _other_ side of this tick (relative to the
    /// current tick); only has relative meaning, not absolute
    pub seconds_per_liquidity_outside_x32: u64,
    /// The seconds spent on the other side of the tick (relative to the current tick); only has
    /// relative meaning, not absolute
    pub seconds_outside: u32,
}

/// Fee growth below a tick boundary, given the boundary's outside value: the outside value when
/// the current tick is at or above the boundary, else its complement in the global growth.
pub open spec fn fee_growth_below(
    tick: i32,
    fee_growth_outside: u64,
    tick_current: i32,
    fee_growth_global: u64,
) -> int {
    if tick_current >= tick {
        fee_growth_outside as int
    } else {
        fee_growth_global - fee_growth_outside
    }
}

/// Fee growth above a tick boundary, given the boundary's outside value: the outside value when
/// the current tick is below the boundary, else its complement in the global growth.
pub open spec fn fee_growth_above(
    tick: i32,
    fee_growth_outside: u64,
    tick_current: i32,
    fee_growth_global: u64,
) -> int {
    if tick_current < tick {
        fee_growth_outside as int
    } else {
        fee_growth_global - fee_growth_outside
    }
}

/// Fee growth inside `[lower, upper)`, formula 6.19: `fr = fg - f_below(lower) - f_above(upper)`,
/// modulo `2^64`.
pub open spec fn fee_growth_inside(
    lower_tick: i32,
    lower_outside: u64,
    upper_tick: i32,
    upper_outside: u64,
    tick_current: i32,
    fee_growth_global: u64,
) -> u64 {
    wrap_u64(
        fee_growth_global - fee_growth_below(lower_tick, lower_outside, tick_current, fee_growth_global)
            - fee_growth_above(upper_tick, upper_outside, tick_current, fee_growth_global),
    )
}

/// The fee growth outside a tick boundary in one token, computed by wrapping arithmetic.
fn fee_growth_below_x32(tick: i32, outside: u64, tick_current: i32, global: u64) -> (r: u64)
    ensures
        r == wrap_u64(fee_growth_below(tick, outside, tick_current, global)),
{
    if tick_current >= tick {
        proof {
            vstd::arithmetic::div_mod::lemma_small_mod(outside as nat, 0x10000000000000000);
        }
        outside
    } else {
        wrapping_sub_u64(global, outside)
    }
}

/// The fee growth above a tick boundary in one token, computed by wrapping arithmetic.
fn fee_growth_above_x32(tick: i32, outside: u64, tick_current: i32, global: u64) -> (r: u64)
    ensures
        r == wrap_u64(fee_growth_above(tick, outside, tick_current, global)),
{
    if tick_current < tick {
        proof {
            vstd::arithmetic::div_mod::lemma_small_mod(outside as nat, 0x10000000000000000);
        }
        outside
    } else {
        wrapping_sub_u64(global, outside)
    }
}

/// Subtracting two values reduced modulo `2^64` from a third agrees with reducing the exact
/// difference.
proof fn lemma_wrap_sub_sub(g: int, b: int, a: int)
    ensures
        wrap_u64(wrap_u64(g - wrap_u64(b)) - wrap_u64(a)) == wrap_u64(g - b - a),
{
    let m = 0x10000000000000000int;
    vstd::arithmetic::div_mod::lemma_sub_mod_noop(g, b, m);
    vstd::arithmetic::div_mod::lemma_sub_mod_noop(g - b, a, m);
    vstd::arithmetic::div_mod::lemma_sub_mod_noop(g - b % m, a, m);
    vstd::arithmetic::div_mod::lemma_mod_bound(g - b, m);
    vstd::arithmetic::div_mod::lemma_mod_bound(b, m);
    vstd::arithmetic::div_mod::lemma_mod_bound(a, m);
    vstd::arithmetic::div_mod::lemma_mod_bound(g - b % m, m);
    vstd::arithmetic::div_mod::lemma_sub_mod_noop(g, b % m, m);
    vstd::arithmetic::div_mod::lemma_mod_twice(b, m);
    vstd::arithmetic::div_mod::lemma_sub_mod_noop((g - b % m) % m, a % m, m);
    vstd::arithmetic::div_mod::lemma_sub_mod_noop(g - b % m, a % m, m);
    vstd::arithmetic::div_mod::lemma_mod_twice(a, m);
    vstd::arithmetic::div_mod::lemma_sub_mod_noop(g - b, a % m, m);
}

impl TickState {
    /// Retrieves the all time fee growth data in token_0 and token_1, per unit of liquidity,
    /// inside a position's tick boundaries.
    ///
    /// Calculates `fr = fg - f_below(lower) - f_above(upper)`, formula 6.19, with wrapping
    /// arithmetic since fee growth values can overflow `u64`.
    ///
    /// # Arguments
    ///
    /// * `tick_lower` - The lower tick boundary of the position
    /// * `tick_upper` - The upper tick boundary of the position
    /// * `tick_current` - The current tick
    /// * `fee_growth_global_0_x32` - The all-time global fee growth, per unit of liquidity, in token_0
    /// * `fee_growth_global_1_x32` - The all-time global fee growth, per unit of liquidity, in token_1
    pub fn get_fee_growth_inside(
        tick_lower: &TickState,
        tick_upper: &TickState,
        tick_current: i32,
        fee_growth_global_0_x32: u64,
        fee_growth_global_1_x32: u64,
    ) -> (inside: (u64, u64))
        ensures
            inside.0 == fee_growth_inside(
                tick_lower.tick,
                tick_lower.fee_growth_outside_0_x32,
                tick_upper.tick,
                tick_upper.fee_growth_outside_0_x32,
                tick_current,
                fee_growth_global_0_x32,
            ),
            inside.1 == fee_growth_inside(
                tick_lower.tick,
                tick_lower.fee_growth_outside_1_x32,
                tick_upper.tick,
                tick_upper.fee_growth_outside_1_x32,
                tick_current,
                fee_growth_global_1_x32,
            ),
    {
        // calculate fee growth below
        let fee_growth_below_0_x32 = fee_growth_below_x32(
            tick_lower.tick,
            tick_lower.fee_growth_outside_0_x32,
            tick_current,
            fee_growth_global_0_x32,
        );
        let fee_growth_below_1_x32 = fee_growth_below_x32(
            tick_lower.tick,
            tick_lower.fee_growth_outside_1_x32,
            tick_current,
            fee_growth_global_1_x32,
        );

        // Calculate fee growth above
        let fee_growth_above_0_x32 = fee_growth_above_x32(
            tick_upper.tick,
            tick_upper.fee_growth_outside_0_x32,
            tick_current,
            fee_growth_global_0_x32,
        );
        let fee_growth_above_1_x32 = fee_growth_above_x32(
            tick_upper.tick,
            tick_upper.fee_growth_outside_1_x32,
            tick_current,
            fee_growth_global_1_x32,
        );
        let fee_growth_inside_0_x32 = wrapping_sub_u64(
            wrapping_sub_u64(fee_growth_global_0_x32, fee_growth_below_0_x32),
            fee_growth_above_0_x32,
        );
        let fee_growth_inside_1_x32 = wrapping_sub_u64(
            wrapping_sub_u64(fee_growth_global_1_x32, fee_growth_below_1_x32),
            fee_growth_above_1_x32,
        );
        proof {
            lemma_wrap_sub_sub(
                fee_growth_global_0_x32 as int,
                fee_growth_below(
                    tick_lower.tick,
                    tick_lower.fee_growth_outside_0_x32,
                    tick_current,
                    fee_growth_global_0_x32,
                ),
                fee_growth_above(
                    tick_upper.tick,
                    tick_upper.fee_growth_outside_0_x32,
                    tick_current,
                    fee_growth_global_0_x32,
                ),
            );
            lemma_wrap_sub_sub(
                fee_growth_global_1_x32 as int,
                fee_growth_below(
                    tick_lower.tick,
                    tick_lower.fee_growth_outside_1_x32,
                    tick_current,
                    fee_growth_global_1_x32,
                ),
                fee_growth_above(
                    tick_upper.tick,
                    tick_upper.fee_growth_outside_1_x32,
                    tick_current,
                    fee_growth_global_1_x32,
                ),
            );
        }
        (fee_growth_inside_0_x32, fee_growth_inside_1_x32)
    }

    /// The tick after `update` succeeds with the gross liquidity `gross_after`: gross liquidity
    /// set, net liquidity moved by the delta (subtracted for an upper tick), and, when the tick
    /// was uninitialized and lies below the current tick, the outside values set to the
    /// global ones, since all growth before initialization is taken to have happened below it.
    pub open spec fn updated(
        self,
        tick_current: i32,
        liquidity_delta: i64,
        fee_growth_global_0_x32: u64,
        fee_growth_global_1_x32: u64,
        seconds_per_liquidity_cumulative_x32: u64,
        tick_cumulative: i64,
        time: u32,
        upper: bool,
        gross_after: u64,
    ) -> TickState {
        let init_below = self.liquidity_gross == 0 && self.tick < tick_current;
        TickState {
            liquidity_gross: gross_after,
            liquidity_net: (if upper {
                self.liquidity_net - liquidity_delta
            } else {
                self.liquidity_net + liquidity_delta
            }) as i64,
            fee_growth_outside_0_x32: if init_below {
                fee_growth_global_0_x32
            } else {
                self.fee_growth_outside_0_x32
            },
            fee_growth_outside_1_x32: if init_below {
                fee_growth_global_1_x32
            } else {
                self.fee_growth_outside_1_x32
            },
            seconds_per_liquidity_outside_x32: if init_below {
                seconds_per_liquidity_cumulative_x32
            } else {
                self.seconds_per_liquidity_outside_x32
            },
            tick_cumulative_outside: if init_below {
                tick_cumulative
            } else {
                self.tick_cumulative_outside
            },
            seconds_outside: if init_below {
                time
            } else {
                self.seconds_outside
            },
            ..self
        }
    }

    /// Updates a tick and returns true if the tick was flipped from initialized to
    /// uninitialized, or vice versa.
    ///
    /// Fails with the error of `add_delta` when the gross liquidity would leave `u64`, and with
    /// `LO` when it would exceed `max_liquidity`; the tick is left unchanged then.  The net
    /// liquidity must stay within `i64`.
    ///
    /// # Arguments
    ///
    /// * `self` - The tick state that will be updated
    /// * `tick_current` - The current tick
    /// * `liquidity_delta` - A new amount of liquidity to be added (subtracted) when tick is
    /// crossed from left to right (right to left)
    /// * `fee_growth_global_0_x32` - The all-time global fee growth, per unit of liquidity, in token_0
    /// * `fee_growth_global_1_x32` - The all-time global fee growth, per unit of liquidity, in token_1
    /// * `seconds_per_liquidity_cumulative_x32` - The all-time seconds per max(1, liquidity) of the pool
    /// * `tick_cumulative` - The tick * time elapsed since the pool was first initialized
    /// * `time` - The current block timestamp cast to a u32
    /// * `upper` - true for updating a position's upper tick, or false for updating a position's
    /// lower tick
    /// * `max_liquidity` - The maximum liquidity allocation for a single tick
    pub fn update(
        &mut self,
        tick_current: i32,
        liquidity_delta: i64,
        fee_growth_global_0_x32: u64,
        fee_growth_global_1_x32: u64,
        seconds_per_liquidity_cumulative_x32: u64,
        tick_cumulative: i64,
        time: u32,
        upper: bool,
        max_liquidity: u64,
    ) -> (flipped: Result<bool, ErrorCode>)
        requires
            add_delta_result(old(self).liquidity_gross, liquidity_delta) matches Ok(after) && after
                <= max_liquidity ==> i64::MIN <= (if upper {
                old(self).liquidity_net - liquidity_delta
            } else {
                old(self).liquidity_net + liquidity_delta
            }) <= i64::MAX,
        ensures
            match add_delta_result(old(self).liquidity_gross, liquidity_delta) {
                Err(e) => flipped == Err::<bool, ErrorCode>(e) && *final(self) == *old(self),
                Ok(after) => if after > max_liquidity {
                    flipped == Err::<bool, ErrorCode>(ErrorCode::LO) && *final(self) == *old(self)
                } else {
                    &&& flipped == Ok::<bool, ErrorCode>((after == 0) != (old(self).liquidity_gross == 0))
                    &&& *final(self) == old(self).updated(
                        tick_current,
                        liquidity_delta,
                        fee_growth_global_0_x32,
                        fee_growth_global_1_x32,
                        seconds_per_liquidity_cumulative_x32,
                        tick_cumulative,
                        time,
                        upper,
                        after,
                    )
                },
            },
    {
        let liquidity_gross_before = self.liquidity_gross;
        let liquidity_gross_after = match add_delta(liquidity_gross_before, liquidity_delta) {
            Ok(after) => after,
            Err(e) => return Err(e),
        };

        if liquidity_gross_after > max_liquidity {
            return Err(ErrorCode::LO);
        }

        // Either liquidity_gross_after becomes 0 (uninitialized) XOR liquidity_gross_before
        // was zero (initialized)
        let flipped = (liquidity_gross_after == 0) != (liquidity_gross_before == 0);

        if liquidity_gross_before == 0 {
            // by convention, we assume that all growth before a tick was initialized happened
            // _below_ the tick
            if self.tick < tick_current {
                self.fee_growth_outside_0_x32 = fee_growth_global_0_x32;
                self.fee_growth_outside_1_x32 = fee_growth_global_1_x32;
                self.seconds_per_liquidity_outside_x32 = seconds_per_liquidity_cumulative_x32;
                self.tick_cumulative_outside = tick_cumulative;
                self.seconds_outside = time;
            }
        }

        self.liquidity_gross = liquidity_gross_after;

        // when the lower (upper) tick is crossed left to right (right to left),
        // liquidity must be added (removed)
        self.liquidity_net = if upper {
            self.liquidity_net - liquidity_delta
        } else {
            self.liquidity_net + liquidity_delta
        };

        Ok(flipped)
    }

    /// The tick after crossing it: each outside value replaced by its complement in the
    /// corresponding global value, with wrapping arithmetic.
    pub open spec fn crossed(
        self,
        fee_growth_global_0_x32: u64,
        fee_growth_global_1_x32: u64,
        seconds_per_liquidity_cumulative_x32: u64,
        tick_cumulative: i64,
        time: u32,
    ) -> TickState {
        TickState {
            fee_growth_outside_0_x32: wrap_u64(fee_growth_global_0_x32 - self.fee_growth_outside_0_x32),
            fee_growth_outside_1_x32: wrap_u64(fee_growth_global_1_x32 - self.fee_growth_outside_1_x32),
            seconds_per_liquidity_outside_x32: wrap_u64(
                seconds_per_liquidity_cumulative_x32 - self.seconds_per_liquidity_outside_x32,
            ),
            tick_cumulative_outside: wrap_i64(tick_cumulative - self.tick_cumulative_outside),
            seconds_outside: wrap_u32(time - self.seconds_outside),
            ..self
        }
    }

    /// Transitions to the current tick as needed by price movement, returning the amount of
    /// liquidity added (subtracted) when tick is crossed from left to right (right to left).
    ///
    /// # Arguments
    ///
    /// * `self` - The destination tick of the transition
    /// * `fee_growth_global_0_x32` - The all-time global fee growth, per unit of liquidity, in token_0
    /// * `fee_growth_global_1_x32` - The all-time global fee growth, per unit of liquidity, in token_1
    /// * `seconds_per_liquidity_cumulative_x32` - The current seconds per liquidity
    /// * `tick_cumulative` - The tick * time elapsed since the pool was first initialized
    /// * `time` - The current block timestamp
    pub fn cross(
        &mut self,
        fee_growth_global_0_x32: u64,
        fee_growth_global_1_x32: u64,
        seconds_per_liquidity_cumulative_x32: u64,
        tick_cumulative: i64,
        time: u32,
    ) -> (liquidity_net: i64)
        ensures
            *final(self) == old(self).crossed(
                fee_growth_global_0_x32,
                fee_growth_global_1_x32,
                seconds_per_liquidity_cumulative_x32,
                tick_cumulative,
                time,
            ),
            liquidity_net == old(self).liquidity_net,
    {
        self.fee_growth_outside_0_x32 = wrapping_sub_u64(
            fee_growth_global_0_x32,
            self.fee_growth_outside_0_x32,
        );
        self.fee_growth_outside_1_x32 = wrapping_sub_u64(
            fee_growth_global_1_x32,
            self.fee_growth_outside_1_x32,
        );
        self.seconds_per_liquidity_outside_x32 = wrapping_sub_u64(
            seconds_per_liquidity_cumulative_x32,
            self.seconds_per_liquidity_outside_x32,
        );
        self.tick_cumulative_outside = wrapping_sub_i64(
            tick_cumulative,
            self.tick_cumulative_outside,
        );
        self.seconds_outside = wrapping_sub_u32(time, self.seconds_outside);

        self.liquidity_net
    }
}

/// Derives max liquidity per tick from given tick spacing: `u64::MAX` divided by the number of
/// usable ticks, `2 * floor(MAX_TICK / tick_spacing) + 1`.
///
/// A negative spacing makes the tick count negative, which wraps around `u64`: the result is
/// then 1, or `u64::MAX` when the spacing exceeds the tick range in magnitude.
///
/// # Arguments
///
/// * `tick_spacing` - The amount of required tick separation, realized in multiples of
/// `tick_spacing` e.g., a tickSpacing of 3 requires ticks to be initialized every 3rd tick i.e.,
/// ..., -6, -3, 0, 3, 6, ...
pub fn tick_spacing_to_max_liquidity_per_tick(tick_spacing: i32) -> (max_liquidity: u64)
    requires
        tick_spacing != 0,
    ensures
        tick_spacing > 0 ==> max_liquidity == u64::MAX as int / (2 * (MAX_TICK as int
            / tick_spacing as int) + 1),
        tick_spacing < 0 ==> max_liquidity == (if tick_spacing < -MAX_TICK {
            u64::MAX
        } else {
            1
        }),
{
    if tick_spacing < 0 {
        return negative_spacing_max_liquidity(tick_spacing);
    }
    let ghost q = MAX_TICK as int / tick_spacing as int;
    proof {
        vstd::arithmetic::div_mod::lemma_div_pos_is_pos(MAX_TICK as int, tick_spacing as int);
        vstd::arithmetic::div_mod::lemma_fundamental_div_mod(MAX_TICK as int, tick_spacing as int);
        vstd::arithmetic::div_mod::lemma_mod_bound(MAX_TICK as int, tick_spacing as int);
        vstd::arithmetic::mul::lemma_mul_is_commutative(q, tick_spacing as int);
        vstd::arithmetic::div_mod::lemma_div_by_multiple(2 * q, tick_spacing as int);
        vstd::arithmetic::mul::lemma_mul_unary_negation(q, tick_spacing as int);
    }
    // Find min and max values permitted by tick spacing
    let min_tick = (MIN_TICK / tick_spacing) * tick_spacing;
    let max_tick = (MAX_TICK / tick_spacing) * tick_spacing;
    assert(max_tick == q * tick_spacing && min_tick == -(q * tick_spacing));
    assert(2 * q * tick_spacing == q * tick_spacing + q * tick_spacing) by (nonlinear_arith);
    assert(max_tick - min_tick == 2 * q * tick_spacing);
    let num_ticks = ((max_tick - min_tick) / tick_spacing) as u64 + 1;

    u64::MAX / num_ticks
}

/// `tick_spacing_to_max_liquidity_per_tick` for a negative spacing, whose tick count wraps around
/// `u64`.
fn negative_spacing_max_liquidity(tick_spacing: i32) -> (max_liquidity: u64)
    requires
        tick_spacing < 0,
    ensures
        max_liquidity == (if tick_spacing < -MAX_TICK {
            u64::MAX
        } else {
            1
        }),
{
    let ghost a = -(tick_spacing as int);
    let ghost k = MAX_TICK as int / a;
    proof {
        vstd::arithmetic::div_mod::lemma_fundamental_div_mod(MAX_TICK as int, a);
        vstd::arithmetic::div_mod::lemma_mod_bound(MAX_TICK as int, a);
        assert(0 <= k * a <= MAX_TICK && k * a > MAX_TICK - a) by (nonlinear_arith)
            requires
                MAX_TICK as int == a * k + MAX_TICK as int % a,
                0 <= MAX_TICK as int % a < a,
                a > 0,
        ;
        assert(k >= 0 && (a > MAX_TICK ==> k == 0) && (a <= MAX_TICK ==> k >= 1)) by (nonlinear_arith)
            requires
                0 <= k * a <= MAX_TICK,
                k * a > MAX_TICK - a,
                a > 0,
        ;
        assert(k <= MAX_TICK) by (nonlinear_arith)
            requires
                k * a <= MAX_TICK,
                a >= 1,
                k >= 0,
        ;
    }
    let ghost qe = MAX_TICK as int / tick_spacing as int;
    proof {
        vstd::arithmetic::div_mod::lemma_fundamental_div_mod(MAX_TICK as int, tick_spacing as int);
        let r1 = MAX_TICK as int % tick_spacing as int;
        let r2 = MAX_TICK as int % a;
        assert(qe == -k) by (nonlinear_arith)
            requires
                MAX_TICK as int == tick_spacing * qe + r1,
                MAX_TICK as int == a * k + r2,
                0 <= r1 < a,
                0 <= r2 < a,
                a == -(tick_spacing as int),
        ;
    }
    // Find min and max values permitted by tick spacing
    let q_min = MIN_TICK / tick_spacing;
    let q_max = MAX_TICK / tick_spacing;
    assert(q_min == k && q_max == -k);
    assert(k * tick_spacing == -(k * a)) by (nonlinear_arith)
        requires
            a == -(tick_spacing as int),
    ;
    let min_tick = q_min * tick_spacing;
    let max_tick = q_max * tick_spacing;
    assert(max_tick - min_tick == 2 * k * a) by (nonlinear_arith)
        requires
            min_tick == k * tick_spacing,
            max_tick == (-k) * tick_spacing,
            a == -(tick_spacing as int),
    ;
    proof {
        let d = 2 * k * a;
        vstd::arithmetic::div_mod::lemma_fundamental_div_mod(d, tick_spacing as int);
        let q = d / tick_spacing as int;
        let r = d % tick_spacing as int;
        assert(q == -2 * k) by (nonlinear_arith)
            requires
                d == tick_spacing * q + r,
                d == 2 * k * a,
                0 <= r < a,
                a == -(tick_spacing as int),
        ;
    }
    let span = (max_tick - min_tick) / tick_spacing;
    assert(span == -2 * k);
    proof {
        if k >= 1 {
            assert((span as u64) + ((-span) as u64) == 0x10000000000000000) by (bit_vector)
                requires
                    -887272 <= span < 0,
            ;
        }
    }
    let num_ticks = span as u64 + 1;
    proof {
        if k >= 1 {
            let n = num_ticks as int;
            assert(u64::MAX as int / n == 1) by {
                vstd::arithmetic::div_mod::lemma_fundamental_div_mod(u64::MAX as int, n);
                vstd::arithmetic::div_mod::lemma_mod_bound(u64::MAX as int, n);
                let q = u64::MAX as int / n;
                let r = u64::MAX as int % n;
                assert(q == 1) by (nonlinear_arith)
                    requires
                        u64::MAX as int == n * q + r,
                        0 <= r < n,
                        0x8000000000000000 <= n <= u64::MAX,
                ;
            }
        }
    }

    u64::MAX / num_ticks
}

/// `u64::wrapping_add` is addition modulo `2^64`, and adding zero changes nothing.
pub proof fn lemma_wrap_add(a: u64, b: u64)
    ensures
        vstd::wrapping::u64_specs::wrapping_add(a, b) == wrap_u64(a + b),
        b == 0 ==> wrap_u64(a + b) == a,
{
    let m = 0x10000000000000000int;
    if a + b > u64::MAX {
        vstd::arithmetic::div_mod::lemma_fundamental_div_mod_converse(a + b, m, 1, a + b - m);
    } else {
        vstd::arithmetic::div_mod::lemma_small_mod((a + b) as nat, m as nat);
    }
}

/// Values congruent modulo `2^64` wrap to the same `u64`.
proof fn lemma_wrap_congruent(a: int, b: int)
    requires
        (a - b) % 0x10000000000000000 == 0,
    ensures
        wrap_u64(a) == wrap_u64(b),
{
    let m = 0x10000000000000000int;
    vstd::arithmetic::div_mod::lemma_fundamental_div_mod(a - b, m);
    let k = (a - b) / m;
    vstd::arithmetic::mul::lemma_mul_is_commutative(m, k);
    vstd::arithmetic::div_mod::lemma_mod_multiples_vanish(k, b, m);
}

/// Reducing a value modulo `2^64` twice, or once, gives the same `u64`; and a `u64` is its own
/// reduction.
proof fn lemma_wrap_u64_basics(x: int, v: u64)
    ensures
        (wrap_u64(x) - x) % 0x10000000000000000 == 0,
        wrap_u64(v as int) == v,
{
    let m = 0x10000000000000000int;
    vstd::arithmetic::div_mod::lemma_fundamental_div_mod(x, m);
    vstd::arithmetic::div_mod::lemma_mod_bound(x, m);
    vstd::arithmetic::div_mod::lemma_small_mod(v as nat, m as nat);
    let q = x / m;
    vstd::arithmetic::mul::lemma_mul_is_commutative(m, q);
    vstd::arithmetic::div_mod::lemma_mod_multiples_basic(-q, m);
    vstd::arithmetic::mul::lemma_mul_unary_negation(q, m);
}

/// `wrap(g - wrap(g - x)) == x`: taking the complement in `g` twice gives back `x`.
proof fn lemma_complement_twice(g: u64, x: u64)
    ensures
        wrap_u64(g - wrap_u64(g - x)) == x,
{
    lemma_wrap_u64_basics(g - x, x);
    let m = 0x10000000000000000int;
    let w = wrap_u64(g - x);
    // g - w ≡ g - (g - x) = x
    assert((g - w) - x == -(w - (g - x)));
    vstd::arithmetic::div_mod::lemma_fundamental_div_mod(w - (g - x), m);
    let k = (w - (g - x)) / m;
    vstd::arithmetic::mul::lemma_mul_is_commutative(m, k);
    vstd::arithmetic::div_mod::lemma_mod_multiples_basic(-k, m);
    vstd::arithmetic::mul::lemma_mul_unary_negation(k, m);
    lemma_wrap_congruent(g - w, x as int);
}

/// Taking the complement in `g` twice, modulo `m`, gives back `x` modulo `m`.
proof fn lemma_complement_twice_mod(g: int, x: int, m: int)
    requires
        m > 0,
    ensures
        (g - (g - x) % m) % m == x % m,
{
    vstd::arithmetic::div_mod::lemma_sub_mod_noop(g, g - x, m);
    vstd::arithmetic::div_mod::lemma_mod_twice(g - x, m);
    vstd::arithmetic::div_mod::lemma_sub_mod_noop(g, (g - x) % m, m);
}

/// `wrap_u32(t - wrap_u32(t - x)) == x`.
proof fn lemma_complement_twice_u32(t: u32, x: u32)
    ensures
        wrap_u32(t - wrap_u32(t - x)) == x,
{
    let m = 0x100000000int;
    lemma_complement_twice_mod(t as int, x as int, m);
    vstd::arithmetic::div_mod::lemma_mod_bound(t - x, m);
    vstd::arithmetic::div_mod::lemma_small_mod(x as nat, m as nat);
}

/// `wrap_i64(t - wrap_i64(t - x)) == x`.
proof fn lemma_complement_twice_i64(t: i64, x: i64)
    ensures
        wrap_i64(t - wrap_i64(t - x)) == x,
{
    let m = 0x10000000000000000int;
    let w = wrap_i64(t - x) as int;
    vstd::arithmetic::div_mod::lemma_mod_bound(t - x, m);
    // w is congruent to t - x
    assert(w % m == (t - x) % m) by {
        let r = (t - x) % m;
        vstd::arithmetic::div_mod::lemma_small_mod(r as nat, m as nat);
        if r > i64::MAX {
            vstd::arithmetic::div_mod::lemma_mod_add_multiples_vanish(r - m, m);
        }
    }
    vstd::arithmetic::div_mod::lemma_sub_mod_noop(t as int, w, m);
    vstd::arithmetic::div_mod::lemma_sub_mod_noop(t as int, t - x, m);
    vstd::arithmetic::div_mod::lemma_mod_twice(t - x, m);
    vstd::arithmetic::div_mod::lemma_mod_twice(w, m);
    assert((t - w) % m == (x as int) % m);
    vstd::arithmetic::div_mod::lemma_mod_bound(t - w, m);
    if x >= 0 {
        vstd::arithmetic::div_mod::lemma_small_mod(x as nat, m as nat);
    } else {
        vstd::arithmetic::div_mod::lemma_mod_add_multiples_vanish(x as int, m);
        vstd::arithmetic::div_mod::lemma_small_mod((x + m) as nat, m as nat);
    }
}

/// Crossing a tick twice with the same global values restores it: `cross` is its own inverse on
/// every outside value.
pub proof fn lemma_cross_twice(
    tick: TickState,
    fee_growth_global_0_x32: u64,
    fee_growth_global_1_x32: u64,
    seconds_per_liquidity_cumulative_x32: u64,
    tick_cumulative: i64,
    time: u32,
)
    ensures
        ({
            let once = tick.crossed(
                fee_growth_global_0_x32,
                fee_growth_global_1_x32,
                seconds_per_liquidity_cumulative_x32,
                tick_cumulative,
                time,
            );
            let twice = once.crossed(
                fee_growth_global_0_x32,
                fee_growth_global_1_x32,
                seconds_per_liquidity_cumulative_x32,
                tick_cumulative,
                time,
            );
            &&& twice.fee_growth_outside_0_x32 == tick.fee_growth_outside_0_x32
            &&& twice.fee_growth_outside_1_x32 == tick.fee_growth_outside_1_x32
            &&& twice.seconds_per_liquidity_outside_x32 == tick.seconds_per_liquidity_outside_x32
            &&& twice.tick_cumulative_outside == tick.tick_cumulative_outside
            &&& twice.seconds_outside == tick.seconds_outside
            &&& twice == tick
        }),
{
    lemma_complement_twice_i64(tick_cumulative, tick.tick_cumulative_outside);
    lemma_complement_twice_u32(time, tick.seconds_outside);
    lemma_complement_twice(fee_growth_global_0_x32, tick.fee_growth_outside_0_x32);
    lemma_complement_twice(fee_growth_global_1_x32, tick.fee_growth_outside_1_x32);
    lemma_complement_twice(
        seconds_per_liquidity_cumulative_x32,
        tick.seconds_per_liquidity_outside_x32,
    );
}

/// Fee growth inside in one token is unchanged when the current tick moves across the lower
/// boundary (in either direction) and that boundary is crossed, as long as the move does not
/// also cross the upper boundary.
proof fn lemma_inside_after_lower_cross(
    lower_tick: i32,
    lower_outside: u64,
    upper_tick: i32,
    upper_outside: u64,
    before: i32,
    after: i32,
    g: u64,
)
    requires
        (before < lower_tick) != (after < lower_tick),
        (before < upper_tick) == (after < upper_tick),
    ensures
        fee_growth_inside(lower_tick, wrap_u64(g - lower_outside), upper_tick, upper_outside, after, g)
            == fee_growth_inside(lower_tick, lower_outside, upper_tick, upper_outside, before, g),
{
    let m = 0x10000000000000000int;
    let w = wrap_u64(g - lower_outside);
    lemma_wrap_u64_basics(g - lower_outside, lower_outside);
    let above = fee_growth_above(upper_tick, upper_outside, before, g);
    let new_below = fee_growth_below(lower_tick, w, after, g);
    let old_below = fee_growth_below(lower_tick, lower_outside, before, g);
    // new_below ≡ old_below (mod 2^64)
    if before < lower_tick {
        assert(new_below == w as int && old_below == g - lower_outside);
    } else {
        assert(new_below == g - w && old_below == lower_outside as int);
        assert((g - w) - lower_outside == -(w - (g - lower_outside)));
    }
    vstd::arithmetic::div_mod::lemma_fundamental_div_mod(w - (g - lower_outside), m);
    let k = (w - (g - lower_outside)) / m;
    vstd::arithmetic::mul::lemma_mul_is_commutative(m, k);
    vstd::arithmetic::div_mod::lemma_mod_multiples_basic(k, m);
    vstd::arithmetic::div_mod::lemma_mod_multiples_basic(-k, m);
    vstd::arithmetic::mul::lemma_mul_unary_negation(k, m);
    assert((old_below - new_below) % m == 0);
    assert((g - new_below - above) - (g - old_below - above) == old_below - new_below);
    lemma_wrap_congruent(g - new_below - above, g - old_below - above);
}

/// Fee growth inside in one token is unchanged when the current tick moves across the upper
/// boundary (in either direction) and that boundary is crossed, as long as the move does not
/// also cross the lower boundary.
proof fn lemma_inside_after_upper_cross(
    lower_tick: i32,
    lower_outside: u64,
    upper_tick: i32,
    upper_outside: u64,
    before: i32,
    after: i32,
    g: u64,
)
    requires
        (before < upper_tick) != (after < upper_tick),
        (before < lower_tick) == (after < lower_tick),
    ensures
        fee_growth_inside(lower_tick, lower_outside, upper_tick, wrap_u64(g - upper_outside), after, g)
            == fee_growth_inside(lower_tick, lower_outside, upper_tick, upper_outside, before, g),
{
    let m = 0x10000000000000000int;
    let w = wrap_u64(g - upper_outside);
    lemma_wrap_u64_basics(g - upper_outside, upper_outside);
    let below = fee_growth_below(lower_tick, lower_outside, before, g);
    let new_above = fee_growth_above(upper_tick, w, after, g);
    let old_above = fee_growth_above(upper_tick, upper_outside, before, g);
    if before < upper_tick {
        assert(new_above == g - w && old_above == upper_outside as int);
        assert((g - w) - upper_outside == -(w - (g - upper_outside)));
    } else {
        assert(new_above == w as int && old_above == g - upper_outside);
    }
    vstd::arithmetic::div_mod::lemma_fundamental_div_mod(w - (g - upper_outside), m);
    let k = (w - (g - upper_outside)) / m;
    vstd::arithmetic::mul::lemma_mul_is_commutative(m, k);
    vstd::arithmetic::div_mod::lemma_mod_multiples_basic(k, m);
    vstd::arithmetic::div_mod::lemma_mod_multiples_basic(-k, m);
    vstd::arithmetic::mul::lemma_mul_unary_negation(k, m);
    assert((old_above - new_above) % m == 0);
    assert((g - below - new_above) - (g - below - old_above) == old_above - new_above);
    lemma_wrap_congruent(g - below - new_above, g - below - old_above);
}

/// When the current tick moves across one boundary of a position's range and that boundary
/// tick is crossed, the fee growth inside the range is unchanged in both tokens.
pub proof fn lemma_cross_keeps_fee_growth_inside(
    lower: TickState,
    upper: TickState,
    crossing_lower: bool,
    tick_before: i32,
    tick_after: i32,
    fee_growth_global_0_x32: u64,
    fee_growth_global_1_x32: u64,
    seconds_per_liquidity_cumulative_x32: u64,
    tick_cumulative: i64,
    time: u32,
)
    requires
        crossing_lower ==> (tick_before < lower.tick) != (tick_after < lower.tick) && (tick_before
            < upper.tick) == (tick_after < upper.tick),
        !crossing_lower ==> (tick_before < upper.tick) != (tick_after < upper.tick) && (
        tick_before < lower.tick) == (tick_after < lower.tick),
    ensures
        ({
            let lower2 = if crossing_lower {
                lower.crossed(
                    fee_growth_global_0_x32,
                    fee_growth_global_1_x32,
                    seconds_per_liquidity_cumulative_x32,
                    tick_cumulative,
                    time,
                )
            } else {
                lower
            };
            let upper2 = if crossing_lower {
                upper
            } else {
                upper.crossed(
                    fee_growth_global_0_x32,
                    fee_growth_global_1_x32,
                    seconds_per_liquidity_cumulative_x32,
                    tick_cumulative,
                    time,
                )
            };
            &&& fee_growth_inside(
                lower2.tick,
                lower2.fee_growth_outside_0_x32,
                upper2.tick,
                upper2.fee_growth_outside_0_x32,
                tick_after,
                fee_growth_global_0_x32,
            ) == fee_growth_inside(
                lower.tick,
                lower.fee_growth_outside_0_x32,
                upper.tick,
                upper.fee_growth_outside_0_x32,
                tick_before,
                fee_growth_global_0_x32,
            )
            &&& fee_growth_inside(
                lower2.tick,
                lower2.fee_growth_outside_1_x32,
                upper2.tick,
                upper2.fee_growth_outside_1_x32,
                tick_after,
                fee_growth_global_1_x32,
            ) == fee_growth_inside(
                lower.tick,
                lower.fee_growth_outside_1_x32,
                upper.tick,
                upper.fee_growth_outside_1_x32,
                tick_before,
                fee_growth_global_1_x32,
            )
        }),
{
    if crossing_lower {
        lemma_inside_after_lower_cross(
            lower.tick,
            lower.fee_growth_outside_0_x32,
            upper.tick,
            upper.fee_growth_outside_0_x32,
            tick_before,
            tick_after,
            fee_growth_global_0_x32,
        );
        lemma_inside_after_lower_cross(
            lower.tick,
            lower.fee_growth_outside_1_x32,
            upper.tick,
            upper.fee_growth_outside_1_x32,
            tick_before,
            tick_after,
            fee_growth_global_1_x32,
        );
    } else {
        lemma_inside_after_upper_cross(
            lower.tick,
            lower.fee_growth_outside_0_x32,
            upper.tick,
            upper.fee_growth_outside_0_x32,
            tick_before,
            tick_after,
            fee_growth_global_0_x32,
        );
        lemma_inside_after_upper_cross(
            lower.tick,
            lower.fee_growth_outside_1_x32,
            upper.tick,
            upper.fee_growth_outside_1_x32,
            tick_before,
            tick_after,
            fee_growth_global_1_x32,
        );
    }
}

/// Adding liquidity to a tick and then removing the same amount restores its gross and net
/// liquidity (when neither update fails).
pub proof fn lemma_update_then_revert(
    tick: TickState,
    tick_current: i32,
    liquidity_delta: i64,
    fee_growth_global_0_x32: u64,
    fee_growth_global_1_x32: u64,
    seconds_per_liquidity_cumulative_x32: u64,
    tick_cumulative: i64,
    time: u32,
    upper: bool,
    gross_after: u64,
    gross_final: u64,
)
    requires
        liquidity_delta > i64::MIN,
        add_delta_result(tick.liquidity_gross, liquidity_delta) == Ok::<u64, ErrorCode>(gross_after),
        i64::MIN <= (if upper {
            tick.liquidity_net - liquidity_delta
        } else {
            tick.liquidity_net + liquidity_delta
        }) <= i64::MAX,
        add_delta_result(gross_after, -liquidity_delta as i64) == Ok::<u64, ErrorCode>(gross_final),
    ensures
        ({
            let once = tick.updated(
                tick_current,
                liquidity_delta,
                fee_growth_global_0_x32,
                fee_growth_global_1_x32,
                seconds_per_liquidity_cumulative_x32,
                tick_cumulative,
                time,
                upper,
                gross_after,
            );
            let twice = once.updated(
                tick_current,
                -liquidity_delta as i64,
                fee_growth_global_0_x32,
                fee_growth_global_1_x32,
                seconds_per_liquidity_cumulative_x32,
                tick_cumulative,
                time,
                upper,
                gross_final,
            );
            &&& twice.liquidity_gross == tick.liquidity_gross
            &&& twice.liquidity_net == tick.liquidity_net
        }),
{
}

/// A value reduced modulo `m`, and, when `shift` holds, lowered by `m`, is congruent to it.
proof fn lemma_reduced_congruent(x: int, m: int, shift: bool)
    requires
        m > 0,
    ensures
        ((if shift { x % m - m } else { x % m }) - x) % m == 0,
{
    vstd::arithmetic::div_mod::lemma_fundamental_div_mod(x, m);
    let q = x / m;
    if shift {
        vstd::arithmetic::div_mod::lemma_mod_multiples_basic(-q - 1, m);
        assert(x % m - m - x == (-q - 1) * m) by (nonlinear_arith)
            requires
                x == m * q + x % m,
        ;
    } else {
        vstd::arithmetic::div_mod::lemma_mod_multiples_basic(-q, m);
        assert(x % m - x == (-q) * m) by (nonlinear_arith)
            requires
                x == m * q + x % m,
        ;
    }
}

/// Crossing a tick replaces each outside value by its complement in the corresponding global
/// value: the old and the new outside value add up to the global value, modulo the width of
/// their type.  The tick's liquidity is left as it was.
pub proof fn lemma_crossed_complements(
    tick: TickState,
    fee_growth_global_0_x32: u64,
    fee_growth_global_1_x32: u64,
    seconds_per_liquidity_cumulative_x32: u64,
    tick_cumulative: i64,
    time: u32,
)
    ensures
        ({
            let c = tick.crossed(
                fee_growth_global_0_x32,
                fee_growth_global_1_x32,
                seconds_per_liquidity_cumulative_x32,
                tick_cumulative,
                time,
            );
            &&& (c.fee_growth_outside_0_x32 + tick.fee_growth_outside_0_x32
                - fee_growth_global_0_x32) % 0x10000000000000000 == 0
            &&& (c.fee_growth_outside_1_x32 + tick.fee_growth_outside_1_x32
                - fee_growth_global_1_x32) % 0x10000000000000000 == 0
            &&& (c.seconds_per_liquidity_outside_x32 + tick.seconds_per_liquidity_outside_x32
                - seconds_per_liquidity_cumulative_x32) % 0x10000000000000000 == 0
            &&& (c.tick_cumulative_outside + tick.tick_cumulative_outside - tick_cumulative)
                % 0x10000000000000000 == 0
            &&& (c.seconds_outside + tick.seconds_outside - time) % 0x100000000 == 0
            &&& c.tick == tick.tick
            &&& c.liquidity_gross == tick.liquidity_gross
            &&& c.liquidity_net == tick.liquidity_net
        }),
{
    let m = 0x10000000000000000int;
    let x0 = fee_growth_global_0_x32 - tick.fee_growth_outside_0_x32;
    let x1 = fee_growth_global_1_x32 - tick.fee_growth_outside_1_x32;
    let x2 = seconds_per_liquidity_cumulative_x32 - tick.seconds_per_liquidity_outside_x32;
    let x3 = tick_cumulative - tick.tick_cumulative_outside;
    let x4 = time - tick.seconds_outside;
    vstd::arithmetic::div_mod::lemma_mod_bound(x0, m);
    vstd::arithmetic::div_mod::lemma_mod_bound(x1, m);
    vstd::arithmetic::div_mod::lemma_mod_bound(x2, m);
    vstd::arithmetic::div_mod::lemma_mod_bound(x3, m);
    vstd::arithmetic::div_mod::lemma_mod_bound(x4, 0x100000000);
    lemma_reduced_congruent(x0, m, false);
    lemma_reduced_congruent(x1, m, false);
    lemma_reduced_congruent(x2, m, false);
    lemma_reduced_congruent(x3, m, x3 % m > i64::MAX);
    lemma_reduced_congruent(x4, 0x100000000, false);
}

} // verus!
