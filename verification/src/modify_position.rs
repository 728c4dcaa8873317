//! Crediting and debiting liquidity to a position: the boundary ticks, their bitmap words, the
//! position's fees, the token amounts owed and the pool's in-range liquidity.
//!
//! The accounts an instruction touches are handed in as plain values.  A failing change leaves
//! every one of them as it was, as a failed transaction does.
use crate::error::ErrorCode;
use crate::instructions::check_ticks;
use crate::libraries::liquidity_math::{add_delta, add_delta_result};
use crate::libraries::sqrt_price_math::{
    amount_0_delta, amount_1_delta, get_amount_0_delta_signed, get_amount_1_delta_signed,
    signed_delta,
};
use crate::libraries::sqrt_price_math::{
    lemma_amount_rounding, lemma_signed_amounts_round_for_the_pool,
};
use crate::libraries::tick_math::{
    lemma_sqrt_ratio_at_tick_positive, abs_tick, get_sqrt_ratio_at_tick, sqrt_ratio_at_tick_result, sqrt_ratio_at_tick_value, MAX_TICK,
};
use crate::states::oracle::{partition, writes_next_observation, ObservationState};
use crate::states::pool::PoolState;
use crate::states::position::PositionState;
use crate::states::tick::{
    fee_growth_inside, tick_spacing_to_max_liquidity_per_tick, wrap_u64, wrapping_sub_u64,
    TickState,
};
use crate::states::tick_bitmap::{
    flip_bit, lemma_flip_bit_toggles_only, lemma_flip_bits_commute, lemma_flip_tick_twice,
    word_bit, TickBitmapState,
};
use vstd::prelude::*;

verus! {

/// Oracle values at the current block time, as the latest observation extrapolates them.
#[derive(Clone, Copy, Debug, PartialEq, Eq, Structural)]
pub struct OracleReading {
    /// The current block timestamp
    pub time: u32,
    /// The tick multiplied by seconds elapsed for the life of the pool
    pub tick_cumulative: i64,
    /// The seconds per in range liquidity for the life of the pool
    pub seconds_per_liquidity_cumulative_x32: u64,
}

/// The accounts of a position change, held as values.
#[derive(Clone, Copy, Debug)]
pub struct PositionAccounts {
    /// The position the change is credited to
    pub position: PositionState,
    /// The lower tick boundary of the position
    pub tick_lower: TickState,
    /// The upper tick boundary of the position
    pub tick_upper: TickState,
    /// The bitmap word holding the lower tick's initialized bit
    pub bitmap_lower: TickBitmapState,
    /// The bitmap word holding the upper tick's initialized bit, unless `same_bitmap`
    pub bitmap_upper: TickBitmapState,
    /// Whether both ticks' bits live in one bitmap account, `bitmap_lower`; `bitmap_upper` is
    /// then left alone
    pub same_bitmap: bool,
}

/// What a position update did to its boundary ticks.
#[derive(Clone, Copy, Debug, PartialEq, Eq, Structural)]
pub struct PositionUpdate {
    /// The lower tick went from uninitialized to initialized or back
    pub flipped_lower: bool,
    /// The upper tick went from uninitialized to initialized or back
    pub flipped_upper: bool,
    /// The lower tick account became uninitialized and is to be closed
    pub close_tick_lower: bool,
    /// The upper tick account became uninitialized and is to be closed
    pub close_tick_upper: bool,
}

/// The oracle observation slot that a position change in range writes to.
#[derive(Clone, Copy, Debug, PartialEq, Eq, Structural)]
pub enum ObservationSlot {
    /// The latest observation is overwritten
    Latest,
    /// The next observation of the oracle array is written
    Next,
}

/// The outcome of a position change.
#[derive(Clone, Copy, Debug, PartialEq, Eq, Structural)]
pub struct ModifyOutcome {
    /// Amount of token_0 owed to the pool, negative if the pool owes the recipient
    pub amount_0: i64,
    /// Amount of token_1 owed to the pool, negative if the pool owes the recipient
    pub amount_1: i64,
    /// What happened to the boundary ticks
    pub update: PositionUpdate,
    /// The observation slot written, when the change was in range
    pub observation: Option<ObservationSlot>,
}

/// The maximum liquidity per tick for a tick spacing, as `tick_spacing_to_max_liquidity_per_tick`
/// computes it.
pub open spec fn max_liquidity_per_tick(tick_spacing: u16) -> u64 {
    (u64::MAX as int / (2 * (MAX_TICK as int / tick_spacing as int) + 1)) as u64
}

/// The outcome of updating a boundary tick of `pool` by `liquidity_delta`: the updated tick and
/// whether it flipped, or the error, as `TickState::update` gives them.
pub open spec fn tick_update_result(
    tick: TickState,
    pool: PoolState,
    reading: OracleReading,
    liquidity_delta: i64,
    upper: bool,
) -> Result<(TickState, bool), ErrorCode> {
    match add_delta_result(tick.liquidity_gross, liquidity_delta) {
        Err(e) => Err(e),
        Ok(after) => if after > max_liquidity_per_tick(pool.tick_spacing) {
            Err(ErrorCode::LO)
        } else {
            Ok(
                (
                    tick.updated(
                        pool.tick,
                        liquidity_delta,
                        pool.fee_growth_global_0_x32,
                        pool.fee_growth_global_1_x32,
                        reading.seconds_per_liquidity_cumulative_x32,
                        reading.tick_cumulative,
                        reading.time,
                        upper,
                        after,
                    ),
                    (after == 0) != (tick.liquidity_gross == 0),
                ),
            )
        },
    }
}

/// The net liquidity of a boundary tick stays within `i64` when its update succeeds.
pub open spec fn tick_update_defined(
    tick: TickState,
    pool: PoolState,
    liquidity_delta: i64,
    upper: bool,
) -> bool {
    add_delta_result(tick.liquidity_gross, liquidity_delta) matches Ok(after) && after
        <= max_liquidity_per_tick(pool.tick_spacing) ==> i64::MIN <= (if upper {
        tick.liquidity_net - liquidity_delta
    } else {
        tick.liquidity_net + liquidity_delta
    }) <= i64::MAX
}

/// The boundary ticks after a position update, with their flip flags: unchanged for a poke
/// (zero delta), else the lower then the upper tick updated.
pub open spec fn boundary_ticks_result(
    pool: PoolState,
    accounts: PositionAccounts,
    reading: OracleReading,
    liquidity_delta: i32,
) -> Result<(TickState, bool, TickState, bool), ErrorCode> {
    if liquidity_delta == 0 {
        Ok((accounts.tick_lower, false, accounts.tick_upper, false))
    } else {
        match tick_update_result(
            accounts.tick_lower,
            pool,
            reading,
            liquidity_delta as i64,
            false,
        ) {
            Err(e) => Err(e),
            Ok((lower, flipped_lower)) => match tick_update_result(
                accounts.tick_upper,
                pool,
                reading,
                liquidity_delta as i64,
                true,
            ) {
                Err(e) => Err(e),
                Ok((upper, flipped_upper)) => Ok((lower, flipped_lower, upper, flipped_upper)),
            },
        }
    }
}

/// The bitmap word with the bit of `tick` (its rightmost 8 bits) toggled when `flip` holds.
pub open spec fn flip_tick_bit(bitmap: TickBitmapState, flip: bool, tick: i32) -> TickBitmapState {
    if flip {
        TickBitmapState { word: flip_bit(bitmap.word, tick as int % 256), ..bitmap }
    } else {
        bitmap
    }
}

/// The fee growth inside a position's boundary ticks in both tokens.
pub open spec fn position_fee_growth_inside(
    lower: TickState,
    upper: TickState,
    pool: PoolState,
) -> (u64, u64) {
    (
        fee_growth_inside(
            lower.tick,
            lower.fee_growth_outside_0_x32,
            upper.tick,
            upper.fee_growth_outside_0_x32,
            pool.tick,
            pool.fee_growth_global_0_x32,
        ),
        fee_growth_inside(
            lower.tick,
            lower.fee_growth_outside_1_x32,
            upper.tick,
            upper.fee_growth_outside_1_x32,
            pool.tick,
            pool.fee_growth_global_1_x32,
        ),
    )
}

/// The accounts after `_update_position`, with what happened to the ticks, or the error.
///
/// The boundary ticks are updated (for a non-zero delta), the bit of each flipped tick is
/// toggled in its bitmap word, and the position is credited the fee growth inside its updated
/// ticks.  A tick that flipped while liquidity was removed is to be closed.
pub open spec fn update_position_effect(
    pool: PoolState,
    accounts: PositionAccounts,
    reading: OracleReading,
    liquidity_delta: i32,
) -> Result<(PositionAccounts, PositionUpdate), ErrorCode> {
    match boundary_ticks_result(pool, accounts, reading, liquidity_delta) {
        Err(e) => Err(e),
        Ok((lower, flipped_lower, upper, flipped_upper)) => {
            let bitmap_lower = flip_tick_bit(accounts.bitmap_lower, flipped_lower, lower.tick);
            let inside = position_fee_growth_inside(lower, upper, pool);
            Ok(
                (
                    PositionAccounts {
                        position: accounts.position.updated(liquidity_delta, inside.0, inside.1),
                        tick_lower: lower,
                        tick_upper: upper,
                        bitmap_lower: if accounts.same_bitmap {
                            flip_tick_bit(bitmap_lower, flipped_upper, upper.tick)
                        } else {
                            bitmap_lower
                        },
                        bitmap_upper: if accounts.same_bitmap {
                            accounts.bitmap_upper
                        } else {
                            flip_tick_bit(accounts.bitmap_upper, flipped_upper, upper.tick)
                        },
                        same_bitmap: accounts.same_bitmap,
                    },
                    PositionUpdate {
                        flipped_lower,
                        flipped_upper,
                        close_tick_lower: liquidity_delta < 0 && flipped_lower,
                        close_tick_upper: liquidity_delta < 0 && flipped_upper,
                    },
                ),
            )
        },
    }
}

/// The inputs on which `_update_position` does not panic: a non-zero delta needs a non-zero tick
/// spacing and net liquidities that stay within `i64`, and the position update must be defined
/// for the fee growth inside the updated ticks.
pub open spec fn update_position_defined(
    pool: PoolState,
    accounts: PositionAccounts,
    reading: OracleReading,
    liquidity_delta: i32,
) -> bool {
    &&& liquidity_delta != 0 ==> {
        &&& pool.tick_spacing > 0
        &&& tick_update_defined(accounts.tick_lower, pool, liquidity_delta as i64, false)
        &&& tick_update_defined(accounts.tick_upper, pool, liquidity_delta as i64, true)
    }
    &&& boundary_ticks_result(pool, accounts, reading, liquidity_delta) matches Ok(
        (lower, _, upper, _),
    ) ==> {
        let inside = position_fee_growth_inside(lower, upper, pool);
        accounts.position.can_update(liquidity_delta, inside.0, inside.1)
    }
}

/// Updates a position with the given liquidity delta.
///
/// For a non-zero delta the boundary ticks are updated at the oracle `reading` and the bit of
/// each tick that flips is toggled in its bitmap word; then the fees accrued inside the
/// position's range are credited to it.  On error no account changes.
///
/// # Arguments
///
/// * `pool` - Current pool state
/// * `accounts` - The position, its boundary ticks and their bitmap words
/// * `reading` - The oracle values at the current block time
/// * `liquidity_delta` - The change in liquidity. Can be 0 to perform a poke.
pub fn _update_position(
    pool: &PoolState,
    accounts: &mut PositionAccounts,
    reading: OracleReading,
    liquidity_delta: i32,
) -> (result: Result<PositionUpdate, ErrorCode>)
    requires
        update_position_defined(*pool, *old(accounts), reading, liquidity_delta),
    ensures
        match update_position_effect(*pool, *old(accounts), reading, liquidity_delta) {
            Err(e) => result == Err::<PositionUpdate, ErrorCode>(e) && *final(accounts) == *old(
                accounts,
            ),
            Ok((after, update)) => result == Ok::<PositionUpdate, ErrorCode>(update)
                && *final(accounts) == after,
        },
{
    let mut tick_lower = accounts.tick_lower;
    let mut tick_upper = accounts.tick_upper;

    let mut flipped_lower = false;
    let mut flipped_upper = false;

    // update the ticks if liquidity delta is non-zero
    if liquidity_delta != 0 {
        let max_liquidity_per_tick = tick_spacing_to_max_liquidity_per_tick(
            pool.tick_spacing as i32,
        );

        // Update tick state and find if tick is flipped
        flipped_lower =
        match tick_lower.update(
            pool.tick,
            liquidity_delta as i64,
            pool.fee_growth_global_0_x32,
            pool.fee_growth_global_1_x32,
            reading.seconds_per_liquidity_cumulative_x32,
            reading.tick_cumulative,
            reading.time,
            false,
            max_liquidity_per_tick,
        ) {
            Ok(flipped) => flipped,
            Err(e) => return Err(e),
        };
        flipped_upper =
        match tick_upper.update(
            pool.tick,
            liquidity_delta as i64,
            pool.fee_growth_global_0_x32,
            pool.fee_growth_global_1_x32,
            reading.seconds_per_liquidity_cumulative_x32,
            reading.tick_cumulative,
            reading.time,
            true,
            max_liquidity_per_tick,
        ) {
            Ok(flipped) => flipped,
            Err(e) => return Err(e),
        };
    }
    let mut bitmap_lower = accounts.bitmap_lower;
    let mut bitmap_upper = accounts.bitmap_upper;
    if flipped_lower {
        let bit_pos = tick_bit_pos(tick_lower.tick);  // rightmost 8 bits
        bitmap_lower.flip_tick(bit_pos);
    }
    if flipped_upper {
        let bit_pos = tick_bit_pos(tick_upper.tick);
        if accounts.same_bitmap {
            bitmap_lower.flip_tick(bit_pos);
        } else {
            bitmap_upper.flip_tick(bit_pos);
        }
    }

    // Update fees accrued to the position
    let (fee_growth_inside_0_x32, fee_growth_inside_1_x32) = TickState::get_fee_growth_inside(
        &tick_lower,
        &tick_upper,
        pool.tick,
        pool.fee_growth_global_0_x32,
        pool.fee_growth_global_1_x32,
    );
    let mut position = accounts.position;
    position.update(liquidity_delta, fee_growth_inside_0_x32, fee_growth_inside_1_x32);

    accounts.position = position;
    accounts.tick_lower = tick_lower;
    accounts.tick_upper = tick_upper;
    accounts.bitmap_lower = bitmap_lower;
    accounts.bitmap_upper = bitmap_upper;

    // A tick is un-initialized on flip if liquidity_delta is negative; its account is then
    // deallocated
    Ok(
        PositionUpdate {
            flipped_lower,
            flipped_upper,
            close_tick_lower: liquidity_delta < 0 && flipped_lower,
            close_tick_upper: liquidity_delta < 0 && flipped_upper,
        },
    )
}

/// The bit position of a tick in its bitmap word: its rightmost 8 bits.
fn tick_bit_pos(tick: i32) -> (bit_pos: u8)
    ensures
        bit_pos == tick as int % 256,
{
    let r = tick % 256;
    proof {
        vstd::arithmetic::div_mod::lemma_fundamental_div_mod(tick as int, 256);
        vstd::arithmetic::div_mod::lemma_mod_bound(tick as int, 256);
        if tick < 0 {
            assert(r == -((-tick) % 256));
            vstd::arithmetic::div_mod::lemma_fundamental_div_mod(-tick, 256);
            vstd::arithmetic::div_mod::lemma_mod_bound(-tick, 256);
            assert(-256 < r <= 0);
            assert(r < 0 ==> (r as u8) == r + 256) by (bit_vector)
                requires -256i32 < r <= 0i32;
            assert(r == 0 ==> (r as u8) == 0) by (bit_vector);
            let q = (-tick) / 256;
            if r == 0 {
                vstd::arithmetic::div_mod::lemma_fundamental_div_mod_converse(tick as int, 256, -q, 0);
            } else {
                vstd::arithmetic::div_mod::lemma_fundamental_div_mod_converse(tick as int, 256, -q - 1, r + 256);
            }
        } else {
            assert(0 <= r < 256);
        }
    }
    r as u8
}

/// Signed token_0 amount for a liquidity change between two prices, as
/// `get_amount_0_delta_signed` computes it.
pub open spec fn amount_0_signed(sqrt_ratio_a_x32: u64, sqrt_ratio_b_x32: u64, liquidity: i32) -> i64 {
    signed_delta(
        liquidity,
        amount_0_delta(sqrt_ratio_a_x32, sqrt_ratio_b_x32, liquidity as u32, true),
        amount_0_delta(sqrt_ratio_a_x32, sqrt_ratio_b_x32, (-liquidity) as u32, false),
    ) as i64
}

/// Signed token_1 amount for a liquidity change between two prices, as
/// `get_amount_1_delta_signed` computes it.
pub open spec fn amount_1_signed(sqrt_ratio_a_x32: u64, sqrt_ratio_b_x32: u64, liquidity: i32) -> i64 {
    signed_delta(
        liquidity,
        amount_1_delta(sqrt_ratio_a_x32, sqrt_ratio_b_x32, liquidity as u32, true),
        amount_1_delta(sqrt_ratio_a_x32, sqrt_ratio_b_x32, (-liquidity) as u32, false),
    ) as i64
}

/// The amounts of token_0 and token_1 owed to the pool for a liquidity change on the range
/// `[tick_lower, tick_upper)`, and the pool's liquidity after it.
///
/// Below the range only token_0 is needed, between the tick prices; above it only token_1.
/// In range, token_0 is needed between the current price and the upper tick's, token_1 between
/// the lower tick's and the current price, and the change is added to the pool's liquidity.
/// A zero delta owes nothing.
pub open spec fn position_amounts(
    pool: PoolState,
    tick_lower: i32,
    tick_upper: i32,
    liquidity_delta: i32,
) -> Result<(i64, i64, u64), ErrorCode> {
    if liquidity_delta == 0 {
        Ok((0, 0, pool.liquidity))
    } else if pool.tick < tick_lower {
        match sqrt_ratio_at_tick_result(tick_lower) {
            Err(e) => Err(e),
            Ok(a) => match sqrt_ratio_at_tick_result(tick_upper) {
                Err(e) => Err(e),
                Ok(b) => Ok((amount_0_signed(a, b, liquidity_delta), 0, pool.liquidity)),
            },
        }
    } else if pool.tick < tick_upper {
        match sqrt_ratio_at_tick_result(tick_upper) {
            Err(e) => Err(e),
            Ok(b) => match sqrt_ratio_at_tick_result(tick_lower) {
                Err(e) => Err(e),
                Ok(a) => match add_delta_result(pool.liquidity, liquidity_delta as i64) {
                    Err(e) => Err(e),
                    Ok(liquidity) => Ok(
                        (
                            amount_0_signed(pool.sqrt_price_x32, b, liquidity_delta),
                            amount_1_signed(a, pool.sqrt_price_x32, liquidity_delta),
                            liquidity,
                        ),
                    ),
                },
            },
        }
    } else {
        match sqrt_ratio_at_tick_result(tick_lower) {
            Err(e) => Err(e),
            Ok(a) => match sqrt_ratio_at_tick_result(tick_upper) {
                Err(e) => Err(e),
                Ok(b) => Ok((0, amount_1_signed(a, b, liquidity_delta), pool.liquidity)),
            },
        }
    }
}

/// The inputs on which the amounts of `position_amounts` are computed without panicking: in
/// range, the current price is non-zero.
pub open spec fn position_amounts_defined(
    pool: PoolState,
    tick_lower: i32,
    tick_upper: i32,
    liquidity_delta: i32,
) -> bool {
    liquidity_delta != 0 && tick_lower <= pool.tick < tick_upper && sqrt_ratio_at_tick_result(
        tick_upper,
    ) is Ok ==> pool.sqrt_price_x32 > 0
}

/// The oracle slot a position change writes: for a non-zero change in range, the next slot
/// when the block time lies in a later partition than the latest observation, else the latest.
pub open spec fn observation_slot(
    pool: PoolState,
    tick_lower: i32,
    tick_upper: i32,
    liquidity_delta: i32,
    latest_observation: ObservationState,
    time: u32,
) -> Option<ObservationSlot> {
    if liquidity_delta != 0 && tick_lower <= pool.tick < tick_upper {
        Some(
            if partition(time) > partition(latest_observation.block_timestamp) {
                ObservationSlot::Next
            } else {
                ObservationSlot::Latest
            },
        )
    } else {
        None
    }
}

/// The pool, the accounts and the outcome after `_modify_position`, or the error.
///
/// `TLU` unless the lower tick lies below the upper tick; then the error of the position update
/// or of the amounts, in that order.  The pool takes the liquidity after the change and, when an
/// observation is written, the index of the written observation.
pub open spec fn modify_position_effect(
    pool: PoolState,
    accounts: PositionAccounts,
    latest_observation: ObservationState,
    next_observation: ObservationState,
    reading: OracleReading,
    liquidity_delta: i32,
) -> Result<(PoolState, PositionAccounts, ModifyOutcome), ErrorCode> {
    let tick_lower = accounts.tick_lower.tick;
    let tick_upper = accounts.tick_upper.tick;
    if !(tick_lower < tick_upper) {
        Err(ErrorCode::TLU)
    } else {
        match update_position_effect(pool, accounts, reading, liquidity_delta) {
            Err(e) => Err(e),
            Ok((after, update)) => match position_amounts(
                pool,
                tick_lower,
                tick_upper,
                liquidity_delta,
            ) {
                Err(e) => Err(e),
                Ok((amount_0, amount_1, liquidity)) => {
                    let observation = observation_slot(
                        pool,
                        tick_lower,
                        tick_upper,
                        liquidity_delta,
                        latest_observation,
                        reading.time,
                    );
                    let observation_index = match observation {
                        Some(ObservationSlot::Next) => next_observation.index,
                        Some(ObservationSlot::Latest) => latest_observation.index,
                        None => pool.observation_index,
                    };
                    Ok(
                        (
                            PoolState { liquidity, observation_index, ..pool },
                            after,
                            ModifyOutcome { amount_0, amount_1, update, observation },
                        ),
                    )
                },
            },
        }
    }
}

/// The inputs on which `_modify_position` does not panic: those of the position update and of
/// the amounts, and, for a change in range, a latest observation whose next partition starts
/// within `u32`.
pub open spec fn modify_position_defined(
    pool: PoolState,
    accounts: PositionAccounts,
    latest_observation: ObservationState,
    reading: OracleReading,
    liquidity_delta: i32,
) -> bool {
    let tick_lower = accounts.tick_lower.tick;
    let tick_upper = accounts.tick_upper.tick;
    tick_lower < tick_upper ==> {
        &&& update_position_defined(pool, accounts, reading, liquidity_delta)
        &&& update_position_effect(pool, accounts, reading, liquidity_delta) is Ok ==> {
            &&& position_amounts_defined(pool, tick_lower, tick_upper, liquidity_delta)
            &&& liquidity_delta != 0 && tick_lower <= pool.tick < tick_upper ==> (
            latest_observation.block_timestamp / 14 + 1) * 14 <= u32::MAX
        }
    }
}

/// Whether a boundary tick's update by `liquidity_delta` keeps its net liquidity within `i64`
/// (`tick_update_defined`), with the pool's maximum liquidity per tick.
fn tick_update_is_defined(tick: &TickState, liquidity_delta: i64, upper: bool, max_liquidity: u64) -> (defined: bool)
    ensures
        defined == (add_delta_result(tick.liquidity_gross, liquidity_delta) matches Ok(after) && after
            <= max_liquidity ==> i64::MIN <= (if upper {
            tick.liquidity_net - liquidity_delta
        } else {
            tick.liquidity_net + liquidity_delta
        }) <= i64::MAX),
{
    match add_delta(tick.liquidity_gross, liquidity_delta) {
        Ok(after) => {
            if after > max_liquidity {
                true
            } else if upper {
                tick.liquidity_net.checked_sub(liquidity_delta).is_some()
            } else {
                tick.liquidity_net.checked_add(liquidity_delta).is_some()
            }
        },
        Err(_) => true,
    }
}

/// Whether the position can take `liquidity_delta` and the fees grown inside its range
/// (`PositionState::can_update`).
fn position_update_is_defined(
    position: &PositionState,
    liquidity_delta: i32,
    fee_growth_inside_0_x32: u64,
    fee_growth_inside_1_x32: u64,
) -> (defined: bool)
    ensures
        defined == position.can_update(liquidity_delta, fee_growth_inside_0_x32, fee_growth_inside_1_x32),
{
    if liquidity_delta == 0 && position.liquidity == 0 {
        return false;
    }
    if liquidity_delta == i32::MIN {
        return false;
    }
    let next = position.liquidity as i64 + liquidity_delta as i64;
    if next < 0 || next > u32::MAX as i64 {
        return false;
    }
    let growth_0 = wrapping_sub_u64(fee_growth_inside_0_x32, position.fee_growth_inside_0_last_x32);
    let growth_1 = wrapping_sub_u64(fee_growth_inside_1_x32, position.fee_growth_inside_1_last_x32);
    proof {
        vstd::arithmetic::mul::lemma_mul_upper_bound(
            position.liquidity as int,
            u32::MAX as int,
            growth_0 as int,
            u64::MAX as int,
        );
        vstd::arithmetic::mul::lemma_mul_upper_bound(
            position.liquidity as int,
            u32::MAX as int,
            growth_1 as int,
            u64::MAX as int,
        );
    }
    let owed_0 = position.liquidity as u128 * growth_0 as u128;
    let owed_1 = position.liquidity as u128 * growth_1 as u128;
    owed_0 <= u64::MAX as u128 && owed_1 <= u64::MAX as u128
}

/// Whether `_modify_position` is defined on these inputs (`modify_position_defined`): a caller
/// outside the verified library tests this before the call and fails as a panic would.
///
/// # Arguments
///
/// * `pool` - The pool
/// * `accounts` - The position, its boundary ticks and their bitmap words
/// * `latest_observation` - Most recent oracle observation
/// * `reading` - The oracle values at the current block time
/// * `liquidity_delta` - The change in liquidity
pub fn modify_position_is_defined(
    pool: &PoolState,
    accounts: &PositionAccounts,
    latest_observation: &ObservationState,
    reading: OracleReading,
    liquidity_delta: i32,
) -> (defined: bool)
    ensures
        defined == modify_position_defined(
            *pool,
            *accounts,
            *latest_observation,
            reading,
            liquidity_delta,
        ),
{
    let tick_lower = accounts.tick_lower.tick;
    let tick_upper = accounts.tick_upper.tick;
    if !(tick_lower < tick_upper) {
        return true;
    }
    let mut lower = accounts.tick_lower;
    let mut upper = accounts.tick_upper;
    if liquidity_delta != 0 {
        if pool.tick_spacing == 0 {
            return false;
        }
        let max_liquidity = tick_spacing_to_max_liquidity_per_tick(pool.tick_spacing as i32);
        assert(max_liquidity == max_liquidity_per_tick(pool.tick_spacing));
        let delta = liquidity_delta as i64;
        if !tick_update_is_defined(&lower, delta, false, max_liquidity) {
            return false;
        }
        if !tick_update_is_defined(&upper, delta, true, max_liquidity) {
            return false;
        }
        match lower.update(
            pool.tick,
            delta,
            pool.fee_growth_global_0_x32,
            pool.fee_growth_global_1_x32,
            reading.seconds_per_liquidity_cumulative_x32,
            reading.tick_cumulative,
            reading.time,
            false,
            max_liquidity,
        ) {
            Ok(_) => {},
            Err(_) => return true,
        }
        match upper.update(
            pool.tick,
            delta,
            pool.fee_growth_global_0_x32,
            pool.fee_growth_global_1_x32,
            reading.seconds_per_liquidity_cumulative_x32,
            reading.tick_cumulative,
            reading.time,
            true,
            max_liquidity,
        ) {
            Ok(_) => {},
            Err(_) => return true,
        }
    }
    assert(boundary_ticks_result(*pool, *accounts, reading, liquidity_delta) matches Ok(
        (l, _, u, _),
    ) && l == lower && u == upper);
    let inside = TickState::get_fee_growth_inside(
        &lower,
        &upper,
        pool.tick,
        pool.fee_growth_global_0_x32,
        pool.fee_growth_global_1_x32,
    );
    if !position_update_is_defined(&accounts.position, liquidity_delta, inside.0, inside.1) {
        return false;
    }
    if liquidity_delta != 0 && tick_lower <= pool.tick && pool.tick < tick_upper {
        if pool.sqrt_price_x32 == 0 {
            if let Ok(_) = get_sqrt_ratio_at_tick(tick_upper) {
                return false;
            }
        }
        if (latest_observation.block_timestamp as u64 / 14 + 1) * 14 > u32::MAX as u64 {
            return false;
        }
    }
    true
}

/// Credit or debit liquidity to a position, and find the amount of token_0 and token_1
/// required to produce this change.
/// Returns amount of token_0 and token_1 owed to the pool, negative if the pool should
/// pay the recipient.
///
/// For a change in range the oracle slot to write is chosen (the latest observation, or the next
/// one once the block time reaches a later 14 second partition) and the pool records that
/// observation's index; the observation itself is written by the caller.  On error neither the
/// pool nor any account changes.
///
/// # Arguments
///
/// * `pool` - The pool
/// * `accounts` - The position, its boundary ticks and their bitmap words
/// * `latest_observation` - Most recent oracle observation
/// * `next_observation` - Account to store the next oracle observation
/// * `reading` - The oracle values at the current block time
/// * `liquidity_delta` - The change in liquidity. Can be 0 to perform a poke.
pub fn _modify_position(
    pool: &mut PoolState,
    accounts: &mut PositionAccounts,
    latest_observation: &ObservationState,
    next_observation: &ObservationState,
    reading: OracleReading,
    liquidity_delta: i32,
) -> (result: Result<ModifyOutcome, ErrorCode>)
    requires
        modify_position_defined(
            *old(pool),
            *old(accounts),
            *latest_observation,
            reading,
            liquidity_delta,
        ),
    ensures
        match modify_position_effect(
            *old(pool),
            *old(accounts),
            *latest_observation,
            *next_observation,
            reading,
            liquidity_delta,
        ) {
            Err(e) => {
                &&& result == Err::<ModifyOutcome, ErrorCode>(e)
                &&& *final(pool) == *old(pool)
                &&& *final(accounts) == *old(accounts)
            },
            Ok((pool_after, accounts_after, outcome)) => {
                &&& result == Ok::<ModifyOutcome, ErrorCode>(outcome)
                &&& *final(pool) == pool_after
                &&& *final(accounts) == accounts_after
            },
        },
{
    let tick_lower = accounts.tick_lower.tick;
    let tick_upper = accounts.tick_upper.tick;
    match check_ticks(tick_lower, tick_upper) {
        Ok(()) => {},
        Err(e) => return Err(e),
    }

    let mut updated = *accounts;
    let update = match _update_position(pool, &mut updated, reading, liquidity_delta) {
        Ok(update) => update,
        Err(e) => return Err(e),
    };

    let mut amount_0: i64 = 0;
    let mut amount_1: i64 = 0;
    let mut liquidity = pool.liquidity;
    let mut observation_index = pool.observation_index;
    let mut observation = None;

    if liquidity_delta != 0 {
        if pool.tick < tick_lower {
            // current tick is below the passed range; liquidity can only become in range by
            // crossing from left to right, when we'll need _more_ token_0 (it's becoming more
            // valuable) so user must provide it
            let sqrt_ratio_lower = match get_sqrt_ratio_at_tick(tick_lower) {
                Ok(r) => r,
                Err(e) => return Err(e),
            };
            let sqrt_ratio_upper = match get_sqrt_ratio_at_tick(tick_upper) {
                Ok(r) => r,
                Err(e) => return Err(e),
            };
            amount_0 = get_amount_0_delta_signed(sqrt_ratio_lower, sqrt_ratio_upper, liquidity_delta);
        } else if pool.tick < tick_upper {
            // current tick is inside the passed range

            // choose the oracle observation to write
            let slot = if writes_next_observation(
                latest_observation.block_timestamp,
                reading.time,
            ) {
                ObservationSlot::Next
            } else {
                ObservationSlot::Latest
            };
            observation_index = match slot {
                ObservationSlot::Next => next_observation.index,
                ObservationSlot::Latest => latest_observation.index,
            };
            observation = Some(slot);

            // Both Δtoken_0 and Δtoken_1 will be needed in current price
            let sqrt_ratio_upper = match get_sqrt_ratio_at_tick(tick_upper) {
                Ok(r) => r,
                Err(e) => return Err(e),
            };
            amount_0 = get_amount_0_delta_signed(pool.sqrt_price_x32, sqrt_ratio_upper, liquidity_delta);
            let sqrt_ratio_lower = match get_sqrt_ratio_at_tick(tick_lower) {
                Ok(r) => r,
                Err(e) => return Err(e),
            };
            amount_1 = get_amount_1_delta_signed(sqrt_ratio_lower, pool.sqrt_price_x32, liquidity_delta);

            liquidity = match add_delta(pool.liquidity, liquidity_delta as i64) {
                Ok(l) => l,
                Err(e) => return Err(e),
            };
        } else {
            // current tick is above the range
            let sqrt_ratio_lower = match get_sqrt_ratio_at_tick(tick_lower) {
                Ok(r) => r,
                Err(e) => return Err(e),
            };
            let sqrt_ratio_upper = match get_sqrt_ratio_at_tick(tick_upper) {
                Ok(r) => r,
                Err(e) => return Err(e),
            };
            amount_1 = get_amount_1_delta_signed(sqrt_ratio_lower, sqrt_ratio_upper, liquidity_delta);
        }
    }

    pool.liquidity = liquidity;
    pool.observation_index = observation_index;
    *accounts = updated;
    Ok(ModifyOutcome { amount_0, amount_1, update, observation })
}

/// Rounding favours the pool on a position change: at the same tick and price, burning
/// liquidity frees at most what minting the same liquidity owes, in each token.
pub proof fn lemma_burn_frees_at_most_minted(
    pool_mint: PoolState,
    pool_burn: PoolState,
    tick_lower: i32,
    tick_upper: i32,
    liquidity: i32,
)
    requires
        liquidity > 0,
        pool_burn.tick == pool_mint.tick,
        pool_burn.sqrt_price_x32 == pool_mint.sqrt_price_x32,
        tick_lower <= pool_mint.tick < tick_upper ==> pool_mint.sqrt_price_x32 > 0,
        position_amounts(pool_mint, tick_lower, tick_upper, liquidity) is Ok,
        position_amounts(pool_burn, tick_lower, tick_upper, (-liquidity) as i32) is Ok,
    ensures
        ({
            let minted = position_amounts(pool_mint, tick_lower, tick_upper, liquidity)->Ok_0;
            let burned = position_amounts(
                pool_burn,
                tick_lower,
                tick_upper,
                (-liquidity) as i32,
            )->Ok_0;
            &&& 0 <= -burned.0 <= minted.0
            &&& 0 <= -burned.1 <= minted.1
        }),
{
    let a = sqrt_ratio_at_tick_value(tick_lower) as u64;
    let b = sqrt_ratio_at_tick_value(tick_upper) as u64;
    let p = pool_mint.sqrt_price_x32;
    if abs_tick(tick_lower) <= MAX_TICK {
        lemma_sqrt_ratio_at_tick_positive(tick_lower);
    }
    if abs_tick(tick_upper) <= MAX_TICK {
        lemma_sqrt_ratio_at_tick_positive(tick_upper);
    }
    let l = liquidity as u32;
    if pool_mint.tick < tick_lower {
        lemma_amount_rounding(a, b, l);
        lemma_owed_and_freed(
            amount_0_delta(a, b, l, true),
            amount_0_delta(a, b, l, false),
        );
    } else if pool_mint.tick < tick_upper {
        lemma_amount_rounding(p, b, l);
        lemma_amount_rounding(a, p, l);
        lemma_owed_and_freed(
            amount_0_delta(p, b, l, true),
            amount_0_delta(p, b, l, false),
        );
        lemma_owed_and_freed(
            amount_1_delta(a, p, l, true),
            amount_1_delta(a, p, l, false),
        );
    } else {
        lemma_amount_rounding(a, b, l);
        lemma_owed_and_freed(
            amount_1_delta(a, b, l, true),
            amount_1_delta(a, b, l, false),
        );
    }
}

/// An amount `up` below `2^63` owed as an `i64` bounds the amount `down <= up` freed as a
/// negated `i64`.
proof fn lemma_owed_and_freed(up: int, down: int)
    requires
        0 <= down <= up < 0x8000000000000000,
    ensures
        (up as u64) as i64 == up,
        (down as u64) as i64 == down,
        -((down as u64) as i64) > i64::MIN,
{
}

/// Burning the liquidity just minted restores the liquidity state: the pool's in-range
/// liquidity, the position's liquidity, the gross and net liquidity of both boundary ticks, and
/// the bitmap words.  Stated for a mint on which `_modify_position` does not panic.
pub proof fn lemma_mint_then_burn_restores_liquidity(
    pool: PoolState,
    accounts: PositionAccounts,
    latest_mint: ObservationState,
    next_mint: ObservationState,
    reading_mint: OracleReading,
    latest_burn: ObservationState,
    next_burn: ObservationState,
    reading_burn: OracleReading,
    liquidity: i32,
)
    requires
        liquidity > 0,
        modify_position_defined(pool, accounts, latest_mint, reading_mint, liquidity),
        modify_position_effect(pool, accounts, latest_mint, next_mint, reading_mint, liquidity) is Ok,
        ({
            let minted = modify_position_effect(
                pool,
                accounts,
                latest_mint,
                next_mint,
                reading_mint,
                liquidity,
            )->Ok_0;
            modify_position_effect(
                minted.0,
                minted.1,
                latest_burn,
                next_burn,
                reading_burn,
                (-liquidity) as i32,
            ) is Ok
        }),
    ensures
        ({
            let minted = modify_position_effect(
                pool,
                accounts,
                latest_mint,
                next_mint,
                reading_mint,
                liquidity,
            )->Ok_0;
            let burned = modify_position_effect(
                minted.0,
                minted.1,
                latest_burn,
                next_burn,
                reading_burn,
                (-liquidity) as i32,
            )->Ok_0;
            &&& burned.0.liquidity == pool.liquidity
            &&& burned.1.position.liquidity == accounts.position.liquidity
            &&& burned.1.tick_lower.liquidity_gross == accounts.tick_lower.liquidity_gross
            &&& burned.1.tick_lower.liquidity_net == accounts.tick_lower.liquidity_net
            &&& burned.1.tick_upper.liquidity_gross == accounts.tick_upper.liquidity_gross
            &&& burned.1.tick_upper.liquidity_net == accounts.tick_upper.liquidity_net
            &&& burned.1.bitmap_lower == accounts.bitmap_lower
            &&& burned.1.bitmap_upper == accounts.bitmap_upper
        }),
{
    let lower_bit = (accounts.tick_lower.tick as int % 256) as u8;
    let upper_bit = (accounts.tick_upper.tick as int % 256) as u8;
    let w_lower = accounts.bitmap_lower.word;
    let w_upper = accounts.bitmap_upper.word;
    lemma_flip_tick_twice(w_lower, lower_bit);
    lemma_flip_tick_twice(w_upper, upper_bit);
    lemma_flip_tick_twice(flip_bit(w_lower, lower_bit as int), upper_bit);
    lemma_flip_tick_twice(flip_bit(w_lower, upper_bit as int), lower_bit);
    lemma_flip_bits_commute(w_lower, lower_bit, upper_bit);
    lemma_flip_bits_commute(
        flip_bit(flip_bit(w_lower, lower_bit as int), upper_bit as int),
        lower_bit,
        upper_bit,
    );
}

/// Every successful position update, a poke (zero delta) included, moves the position's
/// liquidity by the delta, credits it the fees grown inside its range since its last update
/// (its liquidity before the update times that growth, modulo `2^64`), and records the fee
/// growth inside its range, as the updated boundary ticks and the pool give it.
pub proof fn lemma_update_position_credits_fees(
    pool: PoolState,
    accounts: PositionAccounts,
    reading: OracleReading,
    liquidity_delta: i32,
)
    requires
        update_position_defined(pool, accounts, reading, liquidity_delta),
    ensures
        update_position_effect(pool, accounts, reading, liquidity_delta) matches Ok((after, _))
            ==> {
            let before = accounts.position;
            let inside_0 = fee_growth_inside(
                after.tick_lower.tick,
                after.tick_lower.fee_growth_outside_0_x32,
                after.tick_upper.tick,
                after.tick_upper.fee_growth_outside_0_x32,
                pool.tick,
                pool.fee_growth_global_0_x32,
            );
            let inside_1 = fee_growth_inside(
                after.tick_lower.tick,
                after.tick_lower.fee_growth_outside_1_x32,
                after.tick_upper.tick,
                after.tick_upper.fee_growth_outside_1_x32,
                pool.tick,
                pool.fee_growth_global_1_x32,
            );
            &&& after.tick_lower.tick == accounts.tick_lower.tick
            &&& after.tick_upper.tick == accounts.tick_upper.tick
            &&& after.position.liquidity == before.liquidity + liquidity_delta
            &&& after.position.fee_growth_inside_0_last_x32 == inside_0
            &&& after.position.fee_growth_inside_1_last_x32 == inside_1
            &&& after.position.tokens_owed_0 == wrap_u64(
                before.tokens_owed_0 + before.liquidity * wrap_u64(
                    inside_0 - before.fee_growth_inside_0_last_x32,
                ),
            )
            &&& after.position.tokens_owed_1 == wrap_u64(
                before.tokens_owed_1 + before.liquidity * wrap_u64(
                    inside_1 - before.fee_growth_inside_1_last_x32,
                ),
            )
        },
{
}

/// `_modify_position` credits fees as the position update does: for every delta, a poke
/// included, the position's liquidity moves by the delta, its tokens owed grow by its liquidity
/// before the change times the fee growth inside its range since its last update (modulo
/// `2^64`), and that growth is recorded.
pub proof fn lemma_modify_position_credits_fees(
    pool: PoolState,
    accounts: PositionAccounts,
    latest_observation: ObservationState,
    next_observation: ObservationState,
    reading: OracleReading,
    liquidity_delta: i32,
)
    requires
        modify_position_defined(pool, accounts, latest_observation, reading, liquidity_delta),
    ensures
        modify_position_effect(
            pool,
            accounts,
            latest_observation,
            next_observation,
            reading,
            liquidity_delta,
        ) matches Ok((_, after, _)) ==> {
            let before = accounts.position;
            let inside_0 = fee_growth_inside(
                after.tick_lower.tick,
                after.tick_lower.fee_growth_outside_0_x32,
                after.tick_upper.tick,
                after.tick_upper.fee_growth_outside_0_x32,
                pool.tick,
                pool.fee_growth_global_0_x32,
            );
            let inside_1 = fee_growth_inside(
                after.tick_lower.tick,
                after.tick_lower.fee_growth_outside_1_x32,
                after.tick_upper.tick,
                after.tick_upper.fee_growth_outside_1_x32,
                pool.tick,
                pool.fee_growth_global_1_x32,
            );
            &&& after.position.liquidity == before.liquidity + liquidity_delta
            &&& after.position.fee_growth_inside_0_last_x32 == inside_0
            &&& after.position.fee_growth_inside_1_last_x32 == inside_1
            &&& after.position.tokens_owed_0 == wrap_u64(
                before.tokens_owed_0 + before.liquidity * wrap_u64(
                    inside_0 - before.fee_growth_inside_0_last_x32,
                ),
            )
            &&& after.position.tokens_owed_1 == wrap_u64(
                before.tokens_owed_1 + before.liquidity * wrap_u64(
                    inside_1 - before.fee_growth_inside_1_last_x32,
                ),
            )
        },
{
    if accounts.tick_lower.tick < accounts.tick_upper.tick {
        lemma_update_position_credits_fees(pool, accounts, reading, liquidity_delta);
    }
}

/// `s` is the token_1 amount for a liquidity change `delta` between the prices `a` and `b`,
/// rounded in the pool's favour: non-negative and rounded up when liquidity is added,
/// non-positive and rounded down in magnitude when it is removed, against the exact
/// `|delta| * |b - a| / 2^32`.
pub open spec fn token_1_rounded_for_pool(s: int, a: u64, b: u64, delta: i32) -> bool {
    let m = if delta < 0 { -delta } else { delta as int };
    let diff = if a <= b { b - a } else { a - b };
    &&& delta >= 0 ==> s >= 0 && (s - 1) * 4294967296 < m * diff <= s * 4294967296
    &&& delta < 0 ==> s <= 0 && -s * 4294967296 <= m * diff < (-s + 1) * 4294967296
}

/// `s` is the token_0 amount for a liquidity change `delta` between the prices `a` and `b`,
/// rounded in the pool's favour, against the exact `|delta| * 2^32 * |b - a| / (a * b)`.
pub open spec fn token_0_rounded_for_pool(s: int, a: u64, b: u64, delta: i32) -> bool {
    let m = if delta < 0 { -delta } else { delta as int };
    let diff = if a <= b { b - a } else { a - b };
    let p = a * b;
    let x = m * 4294967296 * diff;
    &&& delta >= 0 ==> s >= 0 && (s - 1) * p < x <= s * p
    &&& delta < 0 ==> s <= 0 && -s * p <= x < (-s + 1) * p
}

/// The signed amounts between two non-zero prices are rounded in the pool's favour.
proof fn lemma_signed_amounts_rounded(a: u64, b: u64, delta: i32)
    requires
        a > 0,
        b > 0,
        delta > i32::MIN,
    ensures
        token_0_rounded_for_pool(amount_0_signed(a, b, delta) as int, a, b, delta),
        token_1_rounded_for_pool(amount_1_signed(a, b, delta) as int, a, b, delta),
{
    lemma_signed_amounts_round_for_the_pool(a, b, delta);
    let u = if delta < 0 { (-delta) as u32 } else { delta as u32 };
    lemma_amount_rounding(a, b, u);
    assert(u * 4294967296 < 0x8000000000000000) by (nonlinear_arith)
        requires
            u <= i32::MAX,
    ;
}

/// What a liquidity change on a range `[tick_lower, tick_upper)` owes, in terms of the prices:
/// nothing for a zero change; below the range only token_0, between the two tick prices; above it only
/// token_1, between the two tick prices; in range token_0 between the current price and the
/// upper tick's and token_1 between the lower tick's and the current price, with the change
/// added to the pool's liquidity.  Every amount is rounded in the pool's favour, and the pool's
/// liquidity moves only in range.
pub proof fn lemma_position_amounts_owed(
    pool: PoolState,
    tick_lower: i32,
    tick_upper: i32,
    liquidity_delta: i32,
)
    requires
        tick_lower < tick_upper,
        liquidity_delta > i32::MIN,
        position_amounts_defined(pool, tick_lower, tick_upper, liquidity_delta),
    ensures
        position_amounts(pool, tick_lower, tick_upper, liquidity_delta) matches Ok(
            (amount_0, amount_1, liquidity),
        ) ==> {
            let lower = sqrt_ratio_at_tick_value(tick_lower) as u64;
            let upper = sqrt_ratio_at_tick_value(tick_upper) as u64;
            let price = pool.sqrt_price_x32;
            &&& liquidity_delta == 0 ==> amount_0 == 0 && amount_1 == 0 && liquidity
                == pool.liquidity
            &&& liquidity_delta != 0 && pool.tick < tick_lower ==> {
                &&& token_0_rounded_for_pool(amount_0 as int, lower, upper, liquidity_delta)
                &&& amount_1 == 0
                &&& liquidity == pool.liquidity
            }
            &&& liquidity_delta != 0 && tick_lower <= pool.tick < tick_upper ==> {
                &&& token_0_rounded_for_pool(amount_0 as int, price, upper, liquidity_delta)
                &&& token_1_rounded_for_pool(amount_1 as int, lower, price, liquidity_delta)
                &&& liquidity == pool.liquidity + liquidity_delta
            }
            &&& liquidity_delta != 0 && tick_upper <= pool.tick ==> {
                &&& amount_0 == 0
                &&& token_1_rounded_for_pool(amount_1 as int, lower, upper, liquidity_delta)
                &&& liquidity == pool.liquidity
            }
        },
{
    if abs_tick(tick_lower) <= MAX_TICK {
        lemma_sqrt_ratio_at_tick_positive(tick_lower);
    }
    if abs_tick(tick_upper) <= MAX_TICK {
        lemma_sqrt_ratio_at_tick_positive(tick_upper);
    }
    let lower = sqrt_ratio_at_tick_value(tick_lower) as u64;
    let upper = sqrt_ratio_at_tick_value(tick_upper) as u64;
    if liquidity_delta != 0 && abs_tick(tick_lower) <= MAX_TICK && abs_tick(tick_upper)
        <= MAX_TICK {
        assert(sqrt_ratio_at_tick_result(tick_lower) == Ok::<u64, ErrorCode>(lower));
        assert(sqrt_ratio_at_tick_result(tick_upper) == Ok::<u64, ErrorCode>(upper));
        lemma_signed_amounts_rounded(lower, upper, liquidity_delta);
        if tick_lower <= pool.tick < tick_upper {
            assert(pool.sqrt_price_x32 > 0);
            lemma_signed_amounts_rounded(pool.sqrt_price_x32, upper, liquidity_delta);
            lemma_signed_amounts_rounded(lower, pool.sqrt_price_x32, liquidity_delta);
            match add_delta_result(pool.liquidity, liquidity_delta as i64) {
                Ok(l) => {
                    assert(l == pool.liquidity + liquidity_delta);
                },
                Err(_) => {},
            }
        }
    }
}

/// The bit of `tick` in its bitmap word after toggling it when `flip` holds: every bit `i` is
/// the old bit, changed exactly when `flip` holds and `i` is the tick's bit.
proof fn lemma_flip_tick_bit_bits(bitmap: TickBitmapState, flip: bool, tick: i32, i: int)
    requires
        0 <= i < 256,
    ensures
        word_bit(flip_tick_bit(bitmap, flip, tick).word, i) == (word_bit(bitmap.word, i) != (flip
            && i == tick as int % 256)),
        flip_tick_bit(bitmap, flip, tick).word_pos == bitmap.word_pos,
{
    if flip {
        lemma_flip_bit_toggles_only(bitmap.word, tick as int % 256, i);
    }
}

/// A position update moves each boundary tick's gross liquidity by the delta, and its net
/// liquidity by the delta, added at the lower tick and subtracted at the upper one.  A tick
/// flips exactly when its gross liquidity becomes or stops being zero, and a tick flipped by
/// removed liquidity is to be closed.  A tick initialized below the current tick takes the
/// global fee growth as its outside growth.
pub proof fn lemma_update_position_ticks(
    pool: PoolState,
    accounts: PositionAccounts,
    reading: OracleReading,
    liquidity_delta: i32,
)
    requires
        update_position_defined(pool, accounts, reading, liquidity_delta),
    ensures
        update_position_effect(pool, accounts, reading, liquidity_delta) matches Ok(
            (after, update),
        ) ==> {
            let lower = accounts.tick_lower;
            let upper = accounts.tick_upper;
            &&& after.tick_lower.tick == lower.tick && after.tick_upper.tick == upper.tick
            &&& after.tick_lower.liquidity_gross == lower.liquidity_gross + liquidity_delta
            &&& after.tick_upper.liquidity_gross == upper.liquidity_gross + liquidity_delta
            &&& after.tick_lower.liquidity_net == lower.liquidity_net + liquidity_delta
            &&& after.tick_upper.liquidity_net == upper.liquidity_net - liquidity_delta
            &&& update.flipped_lower == ((after.tick_lower.liquidity_gross == 0) != (
            lower.liquidity_gross == 0))
            &&& update.flipped_upper == ((after.tick_upper.liquidity_gross == 0) != (
            upper.liquidity_gross == 0))
            &&& update.close_tick_lower == (liquidity_delta < 0 && update.flipped_lower)
            &&& update.close_tick_upper == (liquidity_delta < 0 && update.flipped_upper)
            &&& after.tick_lower.fee_growth_outside_0_x32 == (if liquidity_delta != 0
                && lower.liquidity_gross == 0 && lower.tick < pool.tick {
                pool.fee_growth_global_0_x32
            } else {
                lower.fee_growth_outside_0_x32
            })
            &&& after.tick_upper.fee_growth_outside_0_x32 == (if liquidity_delta != 0
                && upper.liquidity_gross == 0 && upper.tick < pool.tick {
                pool.fee_growth_global_0_x32
            } else {
                upper.fee_growth_outside_0_x32
            })
        },
{
}

/// A position update toggles, in the bitmap words, the bit of each boundary tick that flipped
/// and no other bit: with separate words, each word changes only at its own tick's bit; with one
/// shared word, that word changes at the bits of the ticks that flipped and the second word is
/// left alone.
pub proof fn lemma_update_position_bitmaps(
    pool: PoolState,
    accounts: PositionAccounts,
    reading: OracleReading,
    liquidity_delta: i32,
    i: int,
)
    requires
        update_position_defined(pool, accounts, reading, liquidity_delta),
        0 <= i < 256,
    ensures
        update_position_effect(pool, accounts, reading, liquidity_delta) matches Ok(
            (after, update),
        ) ==> {
            let lower_bit = accounts.tick_lower.tick as int % 256;
            let upper_bit = accounts.tick_upper.tick as int % 256;
            let lower_word = accounts.bitmap_lower.word;
            let upper_word = accounts.bitmap_upper.word;
            &&& after.bitmap_lower.word_pos == accounts.bitmap_lower.word_pos
            &&& after.bitmap_upper.word_pos == accounts.bitmap_upper.word_pos
            &&& !accounts.same_bitmap ==> word_bit(after.bitmap_lower.word, i) == (word_bit(
                lower_word,
                i,
            ) != (update.flipped_lower && i == lower_bit))
            &&& !accounts.same_bitmap ==> word_bit(after.bitmap_upper.word, i) == (word_bit(
                upper_word,
                i,
            ) != (update.flipped_upper && i == upper_bit))
            &&& accounts.same_bitmap ==> after.bitmap_upper == accounts.bitmap_upper
            &&& accounts.same_bitmap ==> word_bit(after.bitmap_lower.word, i) == ((word_bit(
                lower_word,
                i,
            ) != (update.flipped_lower && i == lower_bit)) != (update.flipped_upper && i
                == upper_bit))
        },
{
    match update_position_effect(pool, accounts, reading, liquidity_delta) {
        Ok((after, update)) => {
            let lower_tick = accounts.tick_lower.tick;
            let upper_tick = accounts.tick_upper.tick;
            let first = flip_tick_bit(accounts.bitmap_lower, update.flipped_lower, lower_tick);
            lemma_flip_tick_bit_bits(accounts.bitmap_lower, update.flipped_lower, lower_tick, i);
            lemma_flip_tick_bit_bits(first, update.flipped_upper, upper_tick, i);
            lemma_flip_tick_bit_bits(accounts.bitmap_upper, update.flipped_upper, upper_tick, i);
        },
        Err(_) => {},
    }
}

} // verus!
