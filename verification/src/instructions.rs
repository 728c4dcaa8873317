//! State transitions of the pool program's instructions.
//!
//! Each function takes the accounts an instruction touches as plain values and updates them;
//! reading and writing the accounts, token transfers and events stay with the caller.
use crate::error::ErrorCode;
use crate::modify_position::{
    _modify_position, lemma_position_amounts_owed, modify_position_defined, modify_position_effect,
    modify_position_is_defined, position_amounts, position_amounts_defined, ModifyOutcome,
    OracleReading, PositionAccounts, PositionUpdate,
};
use crate::libraries::sqrt_price_math::{lemma_amount_1_bounds, lemma_amount_rounding};
use crate::libraries::tick_math::{
    self, abs_tick, lemma_sqrt_ratio_at_tick_positive, sqrt_ratio_at_tick_value,
    tick_at_sqrt_ratio_result, MAX_TICK, MIN_TICK,
};
use crate::states::factory::FactoryState;
use crate::states::fee::{FeeState, FEE_TIER_MAX, TICK_SPACING_MAX};
use crate::states::oracle::ObservationState;
use crate::states::pool::{pack_fee_protocol, unpack_fee_protocol, PoolState};
use crate::states::position::PositionState;
use crate::states::pubkey::Pubkey;
use crate::states::tick::TickState;
use crate::states::tick_bitmap::TickBitmapState;
use vstd::prelude::*;

verus! {

/// The result of `check_tick`: `TLM` below the minimum tick, `TUM` above the maximum tick,
/// `TMS` when the tick is not a multiple of the spacing.
pub open spec fn check_tick_result(tick: i32, tick_spacing: u16) -> Result<(), ErrorCode> {
    if tick < MIN_TICK {
        Err(ErrorCode::TLM)
    } else if tick > MAX_TICK {
        Err(ErrorCode::TUM)
    } else if tick as int % tick_spacing as int != 0 {
        Err(ErrorCode::TMS)
    } else {
        Ok(())
    }
}

/// Common checks for a valid tick input.
/// A tick is valid iff it lies within tick boundaries and it is a multiple
/// of tick spacing.
///
/// # Arguments
///
/// * `tick` - The price tick
/// * `tick_spacing` - The tick spacing of the pool, which must be non-zero for a tick in range
pub fn check_tick(tick: i32, tick_spacing: u16) -> (result: Result<(), ErrorCode>)
    requires
        MIN_TICK <= tick <= MAX_TICK ==> tick_spacing > 0,
    ensures
        result == check_tick_result(tick, tick_spacing),
{
    if tick < MIN_TICK {
        return Err(ErrorCode::TLM);
    }
    if tick > MAX_TICK {
        return Err(ErrorCode::TUM);
    }
    let r = tick % tick_spacing as i32;
    proof {
        let s = tick_spacing as int;
        if tick < 0 {
            assert(r == -((-tick) % s));
            vstd::arithmetic::div_mod::lemma_fundamental_div_mod(-tick, s);
            vstd::arithmetic::div_mod::lemma_fundamental_div_mod(tick as int, s);
            vstd::arithmetic::div_mod::lemma_mod_bound(tick as int, s);
            vstd::arithmetic::div_mod::lemma_mod_bound(-tick, s);
            if (-tick) % s == 0 {
                let q = (-tick) / s;
                vstd::arithmetic::mul::lemma_mul_unary_negation(s, q);
                vstd::arithmetic::div_mod::lemma_fundamental_div_mod_converse(tick as int, s, -q, 0);
            }
            if tick as int % s == 0 {
                let q = tick as int / s;
                vstd::arithmetic::mul::lemma_mul_unary_negation(s, q);
                vstd::arithmetic::div_mod::lemma_fundamental_div_mod_converse(-tick, s, -q, 0);
            }
        }
    }
    if r != 0 {
        return Err(ErrorCode::TMS);
    }
    Ok(())
}

/// Common checks for valid tick inputs: `TLU` unless the lower tick is below the upper tick.
///
/// # Arguments
///
/// * `tick_lower` - The lower tick
/// * `tick_upper` - The upper tick
pub fn check_ticks(tick_lower: i32, tick_upper: i32) -> (result: Result<(), ErrorCode>)
    ensures
        result == (if tick_lower < tick_upper {
            Ok::<(), ErrorCode>(())
        } else {
            Err(ErrorCode::TLU)
        }),
{
    if !(tick_lower < tick_upper) {
        return Err(ErrorCode::TLU);
    }
    Ok(())
}

/// Initialize the factory state and set the protocol owner.
///
/// # Arguments
///
/// * `factory_state_bump` - Bump to validate factory state address
/// * `owner` - The protocol owner
pub fn init_factory(factory_state_bump: u8, owner: Pubkey) -> (factory_state: FactoryState)
    ensures
        factory_state.bump == factory_state_bump,
        factory_state.owner == owner,
{
    FactoryState { bump: factory_state_bump, owner }
}

/// Updates the owner of the factory, returning the previous owner.
///
/// # Arguments
///
/// * `factory_state` - The factory, whose current owner has signed
/// * `new_owner` - The address to be designated as new protocol owner
pub fn set_owner(factory_state: &mut FactoryState, new_owner: Pubkey) -> (old_owner: Pubkey)
    ensures
        old_owner == old(factory_state).owner,
        final(factory_state).owner == new_owner,
        final(factory_state).bump == old(factory_state).bump,
{
    let old_owner = factory_state.owner;
    factory_state.owner = new_owner;
    old_owner
}

/// Enables a fee amount with the given tick_spacing.
/// Fee amounts may never be removed once enabled.
///
/// The fee must be below 1_000_000 (100%) and the tick spacing in `(0, 16384)`: the cap
/// prevents the situation where tick_spacing is so large that the next initialized tick
/// within one word overflows from a valid tick.
///
/// # Arguments
///
/// * `fee_state_bump` - Bump to validate fee state address
/// * `fee` - The fee amount to enable, denominated in hundredths of a bip (i.e. 1e-6)
/// * `tick_spacing` - The spacing between ticks to be enforced for all pools created
/// with the given fee amount
pub fn enable_fee_amount(fee_state_bump: u8, fee: u32, tick_spacing: u16) -> (fee_state: FeeState)
    requires
        fee < FEE_TIER_MAX,
        0 < tick_spacing < TICK_SPACING_MAX,
    ensures
        fee_state == (FeeState { bump: fee_state_bump, fee, tick_spacing }),
{
    FeeState { bump: fee_state_bump, fee, tick_spacing }
}

/// The zero address.
pub open spec fn zero_pubkey() -> Pubkey {
    [0u8, 0, 0, 0, 0, 0, 0, 0, 0, 0, 0, 0, 0, 0, 0, 0, 0, 0, 0, 0, 0, 0, 0, 0, 0, 0, 0, 0, 0, 0, 0, 0]
}

/// A freshly initialized pool at price `sqrt_price_x32` and tick `tick`: unlocked, with an
/// oracle array of one observation, and zero liquidity, fee growth, protocol fees and indexes.
pub open spec fn initialized_pool(
    pool_state_bump: u8,
    token_0: Pubkey,
    token_1: Pubkey,
    fee_state: FeeState,
    sqrt_price_x32: u64,
    tick: i32,
) -> PoolState {
    PoolState {
        bump: pool_state_bump,
        token_0,
        token_1,
        fee: fee_state.fee,
        tick_spacing: fee_state.tick_spacing,
        liquidity: 0,
        sqrt_price_x32,
        tick,
        observation_index: 0,
        observation_cardinality: 1,
        observation_cardinality_next: 1,
        fee_growth_global_0_x32: 0,
        fee_growth_global_1_x32: 0,
        fee_protocol: 0,
        protocol_fees_token_0: 0,
        protocol_fees_token_1: 0,
        unlocked: true,
    }
}

/// Creates a pool for the given token pair and fee, and sets the initial price.
///
/// The initial tick is that of the price; the price must lie in
/// `[MIN_SQRT_RATIO, MAX_SQRT_RATIO)`, else this fails with `R`.  The first oracle observation
/// is initialized at `block_timestamp`.
///
/// # Arguments
///
/// * `pool_state_bump` - Bump to validate Pool State address
/// * `observation_state_bump` - Bump to validate Observation State address
/// * `token_0`, `token_1` - The token pair
/// * `fee_state` - The enabled fee tier of the pool
/// * `sqrt_price_x32` - the initial sqrt price (amount_token_1 / amount_token_0) of the pool as a Q32.32
/// * `block_timestamp` - The current block time
pub fn create_and_init_pool(
    pool_state_bump: u8,
    observation_state_bump: u8,
    token_0: Pubkey,
    token_1: Pubkey,
    fee_state: &FeeState,
    sqrt_price_x32: u64,
    block_timestamp: u32,
) -> (result: Result<(PoolState, ObservationState), ErrorCode>)
    ensures
        match tick_at_sqrt_ratio_result(sqrt_price_x32) {
            Err(e) => result matches Err(e2) && e2 == e,
            Ok(tick) => result matches Ok((pool_state, observation_state)) && pool_state
                == initialized_pool(
                pool_state_bump,
                token_0,
                token_1,
                *fee_state,
                sqrt_price_x32,
                tick,
            ) && observation_state == (ObservationState {
                bump: observation_state_bump,
                index: 0,
                block_timestamp,
                tick_cumulative: 0,
                seconds_per_liquidity_cumulative_x32: 0,
                initialized: true,
            }),
        },
{
    let tick = match tick_math::get_tick_at_sqrt_ratio(sqrt_price_x32) {
        Ok(tick) => tick,
        Err(e) => return Err(e),
    };
    let pool_state = PoolState {
        bump: pool_state_bump,
        token_0,
        token_1,
        fee: fee_state.fee,
        tick_spacing: fee_state.tick_spacing,
        liquidity: 0,
        sqrt_price_x32,
        tick,
        observation_index: 0,
        observation_cardinality: 1,
        observation_cardinality_next: 1,
        fee_growth_global_0_x32: 0,
        fee_growth_global_1_x32: 0,
        fee_protocol: 0,
        protocol_fees_token_0: 0,
        protocol_fees_token_1: 0,
        unlocked: true,
    };
    let initial_observation_state = ObservationState {
        bump: observation_state_bump,
        index: 0,
        block_timestamp,
        tick_cumulative: 0,
        seconds_per_liquidity_cumulative_x32: 0,
        initialized: true,
    };
    Ok((pool_state, initial_observation_state))
}

/// A newly created observation slot: its bump and index set, a placeholder timestamp of one,
/// and not initialized, so that its data is not used.
pub open spec fn created_observation(bump: u8, index: int) -> ObservationState {
    ObservationState {
        bump,
        index: index as u16,
        block_timestamp: 1,
        tick_cumulative: 0,
        seconds_per_liquidity_cumulative_x32: 0,
        initialized: false,
    }
}

/// Increase the maximum number of price and liquidity observations that this pool will store.
///
/// An observation account is created per unit increase in cardinality_next, and
/// `observation_cardinality_next` is accordingly incremented.  Returns the previous
/// `observation_cardinality_next` and the new accounts' states: the `i`-th has the `i`-th bump
/// and the index `observation_cardinality_next + i`.  Fails with `LOK` when the pool is locked.
///
/// # Arguments
///
/// * `pool_state` - The pool
/// * `observation_account_bumps` - Bumps of the observation state PDAs to initialize
pub fn increase_observation_cardinality_next(
    pool_state: &mut PoolState,
    observation_account_bumps: &Vec<u8>,
) -> (result: Result<(u16, Vec<ObservationState>), ErrorCode>)
    requires
        old(pool_state).unlocked ==> old(pool_state).observation_cardinality_next
            + observation_account_bumps.len() <= u16::MAX,
    ensures
        !old(pool_state).unlocked ==> result is Err && result->Err_0 == ErrorCode::LOK
            && *final(pool_state) == *old(pool_state),
        old(pool_state).unlocked ==> ({
            &&& result matches Ok((cardinality_next_old, observations))
            &&& cardinality_next_old == old(pool_state).observation_cardinality_next
            &&& observations.len() == observation_account_bumps.len()
            &&& forall|i: int|
                0 <= i < observations.len() ==> #[trigger] observations@[i]
                    == created_observation(
                    observation_account_bumps@[i],
                    old(pool_state).observation_cardinality_next + i,
                )
            &&& *final(pool_state) == (PoolState {
                observation_cardinality_next: (old(pool_state).observation_cardinality_next
                    + observation_account_bumps.len()) as u16,
                ..*old(pool_state)
            })
        }),
{
    if !pool_state.unlocked {
        return Err(ErrorCode::LOK);
    }
    pool_state.unlocked = false;

    let cardinality_next = pool_state.observation_cardinality_next;
    let mut observations: Vec<ObservationState> = Vec::new();
    let mut i: usize = 0;
    while i < observation_account_bumps.len()
        invariant
            i <= observation_account_bumps.len(),
            cardinality_next + observation_account_bumps.len() <= u16::MAX,
            observations.len() == i,
            forall|j: int|
                0 <= j < i ==> #[trigger] observations@[j] == created_observation(
                    observation_account_bumps@[j],
                    cardinality_next + j,
                ),
        decreases observation_account_bumps.len() - i,
    {
        // this data will not be used because the initialized boolean is still false
        observations.push(
            ObservationState {
                bump: observation_account_bumps[i],
                index: cardinality_next + i as u16,
                block_timestamp: 1,
                tick_cumulative: 0,
                seconds_per_liquidity_cumulative_x32: 0,
                initialized: false,
            },
        );
        i += 1;
    }
    let observation_cardinality_next_old = pool_state.observation_cardinality_next;
    pool_state.observation_cardinality_next = pool_state.observation_cardinality_next + i as u16;

    pool_state.unlocked = true;
    Ok((observation_cardinality_next_old, observations))
}

/// Whether `f` is a valid protocol fee denominator: 0 (no protocol fee) or in `[4, 10]`.
pub open spec fn valid_fee_protocol(f: u8) -> bool {
    f == 0 || (4 <= f <= 10)
}

/// Reading back a packed protocol fee gives the two denominators that were set: a second
/// `set_fee_protocol` returns the pair the first one stored.
pub proof fn lemma_fee_protocol_round_trip(fee_protocol_0: u8, fee_protocol_1: u8)
    requires
        valid_fee_protocol(fee_protocol_0),
        valid_fee_protocol(fee_protocol_1),
    ensures
        unpack_fee_protocol(pack_fee_protocol(fee_protocol_0, fee_protocol_1)) == (
            fee_protocol_0,
            fee_protocol_1,
        ),
{
}

/// Set the denominator of the protocol's % share of the fees.
///
/// Stores `fee_protocol_1` in the high 4 bits and `fee_protocol_0` in the low 4 bits of
/// `fee_protocol`, and returns the previous pair.  Fails with `LOK` when the pool is locked.
///
/// # Arguments
///
/// * `fee_protocol_0` - new protocol fee for token_0 of the pool
/// * `fee_protocol_1` - new protocol fee for token_1 of the pool
pub fn set_fee_protocol(pool_state: &mut PoolState, fee_protocol_0: u8, fee_protocol_1: u8) -> (result:
    Result<(u8, u8), ErrorCode>)
    requires
        old(pool_state).unlocked ==> valid_fee_protocol(fee_protocol_0) && valid_fee_protocol(
            fee_protocol_1,
        ),
    ensures
        !old(pool_state).unlocked ==> result == Err::<(u8, u8), ErrorCode>(ErrorCode::LOK)
            && *final(pool_state) == *old(pool_state),
        old(pool_state).unlocked ==> result == Ok::<(u8, u8), ErrorCode>(
            unpack_fee_protocol(old(pool_state).fee_protocol),
        ) && *final(pool_state) == (PoolState {
            fee_protocol: pack_fee_protocol(fee_protocol_0, fee_protocol_1),
            ..*old(pool_state)
        }),
{
    if !pool_state.unlocked {
        return Err(ErrorCode::LOK);
    }
    pool_state.unlocked = false;
    let fee_protocol_old = pool_state.fee_protocol;
    proof {
        assert(fee_protocol_1 << 4u8 == fee_protocol_1 * 16) by (bit_vector)
            requires
                fee_protocol_1 <= 10,
        ;
        assert(fee_protocol_old >> 4u8 == fee_protocol_old / 16) by (bit_vector);
    }
    pool_state.fee_protocol = (fee_protocol_1 << 4) + fee_protocol_0;
    pool_state.unlocked = true;
    Ok((fee_protocol_old % 16, fee_protocol_old >> 4))
}

/// Collect the protocol fee accrued to the pool: at most the requested amounts, and at most the
/// accrued fees.  Returns the amounts of token_0 and token_1 to transfer to the recipients and
/// removes them from the accrued fees.  Fails with `LOK` when the pool is locked.
///
/// # Arguments
///
/// * `amount_0_requested` - The maximum amount of token_0 to send, can be 0 to collect fees in only token_1
/// * `amount_1_requested` - The maximum amount of token_1 to send, can be 0 to collect fees in only token_0
pub fn collect_protocol(
    pool_state: &mut PoolState,
    amount_0_requested: u64,
    amount_1_requested: u64,
) -> (result: Result<(u64, u64), ErrorCode>)
    ensures
        !old(pool_state).unlocked ==> result == Err::<(u64, u64), ErrorCode>(ErrorCode::LOK)
            && *final(pool_state) == *old(pool_state),
        old(pool_state).unlocked ==> ({
            let amount_0 = vstd::math::min(
                amount_0_requested as int,
                old(pool_state).protocol_fees_token_0 as int,
            );
            let amount_1 = vstd::math::min(
                amount_1_requested as int,
                old(pool_state).protocol_fees_token_1 as int,
            );
            &&& result == Ok::<(u64, u64), ErrorCode>((amount_0 as u64, amount_1 as u64))
            &&& *final(pool_state) == (PoolState {
                protocol_fees_token_0: (old(pool_state).protocol_fees_token_0 - amount_0) as u64,
                protocol_fees_token_1: (old(pool_state).protocol_fees_token_1 - amount_1) as u64,
                ..*old(pool_state)
            })
        }),
{
    if !pool_state.unlocked {
        return Err(ErrorCode::LOK);
    }
    pool_state.unlocked = false;

    let amount_0 = if amount_0_requested < pool_state.protocol_fees_token_0 {
        amount_0_requested
    } else {
        pool_state.protocol_fees_token_0
    };
    let amount_1 = if amount_1_requested < pool_state.protocol_fees_token_1 {
        amount_1_requested
    } else {
        pool_state.protocol_fees_token_1
    };

    if amount_0 > 0 {
        pool_state.protocol_fees_token_0 = pool_state.protocol_fees_token_0 - amount_0;
    }
    if amount_1 > 0 {
        pool_state.protocol_fees_token_1 = pool_state.protocol_fees_token_1 - amount_1;
    }

    pool_state.unlocked = true;
    Ok((amount_0, amount_1))
}

/// An uninitialized tick account for `tick`.
pub open spec fn empty_tick(tick_account_bump: u8, tick: i32) -> TickState {
    TickState {
        bump: tick_account_bump,
        tick,
        liquidity_net: 0,
        liquidity_gross: 0,
        fee_growth_outside_0_x32: 0,
        fee_growth_outside_1_x32: 0,
        tick_cumulative_outside: 0,
        seconds_per_liquidity_outside_x32: 0,
        seconds_outside: 0,
    }
}

/// Initializes an empty program account for a price tick, after checking the tick against the
/// pool's tick spacing (`check_tick`).
///
/// # Arguments
///
/// * `pool_state` - The pool, whose tick spacing is non-zero
/// * `tick_account_bump` - Bump to validate tick account PDA
/// * `tick` - The tick for which the account is created
pub fn init_tick_account(pool_state: &PoolState, tick_account_bump: u8, tick: i32) -> (result:
    Result<TickState, ErrorCode>)
    requires
        MIN_TICK <= tick <= MAX_TICK ==> pool_state.tick_spacing > 0,
    ensures
        match check_tick_result(tick, pool_state.tick_spacing) {
            Err(e) => result == Err::<TickState, ErrorCode>(e),
            Ok(_) => result == Ok::<TickState, ErrorCode>(empty_tick(tick_account_bump, tick)),
        },
{
    match check_tick(tick, pool_state.tick_spacing) {
        Ok(()) => {},
        Err(e) => return Err(e),
    }
    Ok(
        TickState {
            bump: tick_account_bump,
            tick,
            liquidity_net: 0,
            liquidity_gross: 0,
            fee_growth_outside_0_x32: 0,
            fee_growth_outside_1_x32: 0,
            tick_cumulative_outside: 0,
            seconds_per_liquidity_outside_x32: 0,
            seconds_outside: 0,
        },
    )
}

/// Initializes an empty program account for a tick bitmap, after checking the tick against the
/// pool's tick spacing (`check_tick`).  The word position is the most significant 16 bits of the
/// tick, `floor(tick / 256)`.
///
/// # Arguments
///
/// * `pool_state` - The pool, whose tick spacing is non-zero
/// * `bitmap_account_bump` - Bump to validate the bitmap account PDA
/// * `tick` - The tick for which the bitmap account is created
pub fn init_bitmap_account(pool_state: &PoolState, bitmap_account_bump: u8, tick: i32) -> (result:
    Result<TickBitmapState, ErrorCode>)
    requires
        MIN_TICK <= tick <= MAX_TICK ==> pool_state.tick_spacing > 0,
    ensures
        match check_tick_result(tick, pool_state.tick_spacing) {
            Err(e) => result matches Err(e2) && e2 == e,
            Ok(_) => result matches Ok(bitmap) && bitmap.bump == bitmap_account_bump
                && bitmap.word_pos == tick as int / 256 && bitmap.word == [0u64, 0, 0, 0],
        },
{
    match check_tick(tick, pool_state.tick_spacing) {
        Ok(()) => {},
        Err(e) => return Err(e),
    }
    assert(tick >> 8u32 == tick / 256i32) by (bit_vector);
    Ok(TickBitmapState { bump: bitmap_account_bump, word_pos: (tick >> 8) as i16, word: [0, 0, 0, 0] })
}

/// An empty position account.
pub open spec fn empty_position(bump: u8) -> PositionState {
    PositionState {
        bump,
        token_0: zero_pubkey(),
        token_1: zero_pubkey(),
        fee: 0,
        owner: zero_pubkey(),
        tick_lower: 0,
        tick_upper: 0,
        liquidity: 0,
        fee_growth_inside_0_last_x32: 0,
        fee_growth_inside_1_last_x32: 0,
        tokens_owed_0: 0,
        tokens_owed_1: 0,
    }
}

/// Initializes an empty program account for a position.
///
/// # Arguments
///
/// * `bump` - Bump to validate the position account PDA
pub fn init_position_account(bump: u8) -> (position: PositionState)
    ensures
        position == empty_position(bump),
{
    PositionState {
        bump,
        token_0: [0u8, 0, 0, 0, 0, 0, 0, 0, 0, 0, 0, 0, 0, 0, 0, 0, 0, 0, 0, 0, 0, 0, 0, 0, 0, 0, 0, 0, 0, 0, 0, 0],
        token_1: [0u8, 0, 0, 0, 0, 0, 0, 0, 0, 0, 0, 0, 0, 0, 0, 0, 0, 0, 0, 0, 0, 0, 0, 0, 0, 0, 0, 0, 0, 0, 0, 0],
        fee: 0,
        owner: [0u8, 0, 0, 0, 0, 0, 0, 0, 0, 0, 0, 0, 0, 0, 0, 0, 0, 0, 0, 0, 0, 0, 0, 0, 0, 0, 0, 0, 0, 0, 0, 0],
        tick_lower: 0,
        tick_upper: 0,
        liquidity: 0,
        fee_growth_inside_0_last_x32: 0,
        fee_growth_inside_1_last_x32: 0,
        tokens_owed_0: 0,
        tokens_owed_1: 0,
    }
}

/// The pool locked against reentrancy.
pub open spec fn locked(pool_state: PoolState) -> PoolState {
    PoolState { unlocked: false, ..pool_state }
}

/// Adds liquidity for the given pool/recipient/tickLower/tickUpper position.
///
/// Credits `amount` of liquidity to the position through `_modify_position` and returns the
/// amounts of token_0 and token_1 owed to the pool for it.  The pool stays locked: the minter
/// pays in a callback, after which `check_mint_payment` checks the vault balances and unlocks
/// the pool.  Fails with `LOK` when the pool is locked, else with the error of
/// `_modify_position`; nothing changes on error.
///
/// # Arguments
///
/// * `pool_state` - The pool
/// * `accounts` - The position, its boundary ticks and their bitmap words
/// * `latest_observation` - Most recent oracle observation
/// * `next_observation` - Account to store the next oracle observation
/// * `reading` - The oracle values at the current block time
/// * `amount` - The amount of liquidity to mint, positive and at most `i32::MAX`
pub fn mint(
    pool_state: &mut PoolState,
    accounts: &mut PositionAccounts,
    latest_observation: &ObservationState,
    next_observation: &ObservationState,
    reading: OracleReading,
    amount: u64,
) -> (result: Result<(u64, u64), ErrorCode>)
    requires
        old(pool_state).unlocked ==> {
            &&& 0 < amount <= i32::MAX
            &&& modify_position_defined(
                locked(*old(pool_state)),
                *old(accounts),
                *latest_observation,
                reading,
                amount as i32,
            )
        },
    ensures
        !old(pool_state).unlocked ==> {
            &&& result == Err::<(u64, u64), ErrorCode>(ErrorCode::LOK)
            &&& *final(pool_state) == *old(pool_state)
            &&& *final(accounts) == *old(accounts)
        },
        old(pool_state).unlocked ==> match modify_position_effect(
            locked(*old(pool_state)),
            *old(accounts),
            *latest_observation,
            *next_observation,
            reading,
            amount as i32,
        ) {
            Err(e) => {
                &&& result == Err::<(u64, u64), ErrorCode>(e)
                &&& *final(pool_state) == *old(pool_state)
                &&& *final(accounts) == *old(accounts)
            },
            Ok((pool_after, accounts_after, outcome)) => {
                &&& result == Ok::<(u64, u64), ErrorCode>(
                    (outcome.amount_0 as u64, outcome.amount_1 as u64),
                )
                &&& outcome.amount_0 >= 0 && outcome.amount_1 >= 0
                &&& *final(pool_state) == pool_after
                &&& *final(accounts) == accounts_after
            },
        },
{
    if !pool_state.unlocked {
        return Err(ErrorCode::LOK);
    }
    let mut pool = *pool_state;
    pool.unlocked = false;

    let outcome = match _modify_position(
        &mut pool,
        accounts,
        latest_observation,
        next_observation,
        reading,
        amount as i32,
    ) {
        Ok(outcome) => outcome,
        Err(e) => return Err(e),
    };
    proof {
        lemma_position_amounts_owed(
            locked(*old(pool_state)),
            old(accounts).tick_lower.tick,
            old(accounts).tick_upper.tick,
            amount as i32,
        );
    }
    *pool_state = pool;

    Ok((outcome.amount_0 as u64, outcome.amount_1 as u64))
}

/// Checks that the minter paid what `mint` said was owed, and unlocks the pool.
///
/// Each vault is checked on its own: its balance before the payment plus the amount owed in its
/// token must not exceed its balance after.  Fails with `M0` when the vault of token_0 received
/// less than `amount_0`, else with `M1` when that of token_1 received less than `amount_1`; the
/// pool stays locked then.
///
/// # Arguments
///
/// * `pool_state` - The pool, locked by `mint`
/// * `amount_0`, `amount_1` - The amounts owed, as `mint` returned them
/// * `balance_0_before`, `balance_1_before` - The vault balances before the payment
/// * `balance_0_after`, `balance_1_after` - The vault balances after the payment
pub fn check_mint_payment(
    pool_state: &mut PoolState,
    amount_0: u64,
    amount_1: u64,
    balance_0_before: u64,
    balance_1_before: u64,
    balance_0_after: u64,
    balance_1_after: u64,
) -> (result: Result<(), ErrorCode>)
    requires
        amount_0 > 0 ==> balance_0_before + amount_0 <= u64::MAX,
        amount_1 > 0 ==> balance_1_before + amount_1 <= u64::MAX,
    ensures
        amount_0 > 0 && balance_0_before + amount_0 > balance_0_after ==> {
            &&& result == Err::<(), ErrorCode>(ErrorCode::M0)
            &&& *final(pool_state) == *old(pool_state)
        },
        !(amount_0 > 0 && balance_0_before + amount_0 > balance_0_after) && amount_1 > 0
            && balance_1_before + amount_1 > balance_1_after ==> {
            &&& result == Err::<(), ErrorCode>(ErrorCode::M1)
            &&& *final(pool_state) == *old(pool_state)
        },
        (amount_0 == 0 || balance_0_before + amount_0 <= balance_0_after) && (amount_1 == 0
            || balance_1_before + amount_1 <= balance_1_after) ==> {
            &&& result == Ok::<(), ErrorCode>(())
            &&& *final(pool_state) == (PoolState { unlocked: true, ..*old(pool_state) })
        },
{
    if amount_0 > 0 {
        if !(balance_0_before + amount_0 <= balance_0_after) {
            return Err(ErrorCode::M0);
        }
    }
    if amount_1 > 0 {
        if !(balance_1_before + amount_1 <= balance_1_after) {
            return Err(ErrorCode::M1);
        }
    }
    pool_state.unlocked = true;
    Ok(())
}

/// The amounts of token_0 and token_1 that burnt liquidity frees: the negated amounts owed.
pub open spec fn burned_amounts(outcome: ModifyOutcome) -> (u64, u64) {
    ((-outcome.amount_0) as u64, (-outcome.amount_1) as u64)
}

/// The position with freed amounts added to its tokens owed, when any is non-zero.
pub open spec fn credit_burned(position: PositionState, amounts: (u64, u64)) -> PositionState {
    if amounts.0 > 0 || amounts.1 > 0 {
        PositionState {
            tokens_owed_0: (position.tokens_owed_0 + amounts.0) as u64,
            tokens_owed_1: (position.tokens_owed_1 + amounts.1) as u64,
            ..position
        }
    } else {
        position
    }
}

/// The inputs on which `burn` does not panic: those of `_modify_position` for the negated amount,
/// and tokens owed that can take the freed amounts.
pub open spec fn burn_defined(
    pool_state: PoolState,
    accounts: PositionAccounts,
    latest_observation: ObservationState,
    next_observation: ObservationState,
    reading: OracleReading,
    amount: u64,
) -> bool {
    let liquidity_delta = (-amount) as i32;
    &&& amount <= i32::MAX
    &&& modify_position_defined(
        locked(pool_state),
        accounts,
        latest_observation,
        reading,
        liquidity_delta,
    )
    &&& modify_position_effect(
        locked(pool_state),
        accounts,
        latest_observation,
        next_observation,
        reading,
        liquidity_delta,
    ) matches Ok((_, after, outcome)) ==> {
        let amounts = burned_amounts(outcome);
        &&& after.position.tokens_owed_0 + amounts.0 <= u64::MAX
        &&& after.position.tokens_owed_1 + amounts.1 <= u64::MAX
    }
}

/// Amounts owed for removed liquidity are never `i64::MIN`: each stays below `2^63` in
/// magnitude.
proof fn lemma_removed_amounts_negatable(
    pool_state: PoolState,
    tick_lower: i32,
    tick_upper: i32,
    liquidity_delta: i32,
)
    requires
        i32::MIN < liquidity_delta <= 0,
        position_amounts_defined(pool_state, tick_lower, tick_upper, liquidity_delta),
    ensures
        position_amounts(pool_state, tick_lower, tick_upper, liquidity_delta) matches Ok(
            (amount_0, amount_1, _),
        ) ==> amount_0 > i64::MIN && amount_1 > i64::MIN,
{
    if abs_tick(tick_lower) <= MAX_TICK {
        lemma_sqrt_ratio_at_tick_positive(tick_lower);
    }
    if abs_tick(tick_upper) <= MAX_TICK {
        lemma_sqrt_ratio_at_tick_positive(tick_upper);
    }
    let a = sqrt_ratio_at_tick_value(tick_lower) as u64;
    let b = sqrt_ratio_at_tick_value(tick_upper) as u64;
    let p = pool_state.sqrt_price_x32;
    let l = (-liquidity_delta) as u32;
    if liquidity_delta < 0 && position_amounts(pool_state, tick_lower, tick_upper, liquidity_delta) is Ok {
        if pool_state.tick < tick_lower {
            lemma_amount_rounding(a, b, l);
        } else if pool_state.tick < tick_upper {
            lemma_amount_rounding(p, b, l);
            lemma_amount_1_bounds(a, p, l);
        } else {
            lemma_amount_1_bounds(a, b, l);
        }
    }
}

/// Crediting freed tokens adds each freed amount to the tokens owed in its token, whichever of
/// the two amounts are non-zero, and changes nothing else of the position.
pub proof fn lemma_credit_burned_adds_freed(position: PositionState, amounts: (u64, u64))
    requires
        position.tokens_owed_0 + amounts.0 <= u64::MAX,
        position.tokens_owed_1 + amounts.1 <= u64::MAX,
    ensures
        credit_burned(position, amounts).tokens_owed_0 == position.tokens_owed_0 + amounts.0,
        credit_burned(position, amounts).tokens_owed_1 == position.tokens_owed_1 + amounts.1,
        credit_burned(position, amounts).liquidity == position.liquidity,
        credit_burned(position, amounts).fee_growth_inside_0_last_x32
            == position.fee_growth_inside_0_last_x32,
        credit_burned(position, amounts).fee_growth_inside_1_last_x32
            == position.fee_growth_inside_1_last_x32,
{
}

/// Whether `burn` is defined on these inputs (`burn_defined`): a caller outside the verified
/// library tests this before the call and fails as a panic would.
///
/// # Arguments
///
/// * `pool_state` - The pool
/// * `accounts` - The position, its boundary ticks and their bitmap words
/// * `latest_observation` - Most recent oracle observation
/// * `next_observation` - Account to store the next oracle observation
/// * `reading` - The oracle values at the current block time
/// * `amount` - The amount of liquidity to burn
pub fn burn_is_defined(
    pool_state: &PoolState,
    accounts: &PositionAccounts,
    latest_observation: &ObservationState,
    next_observation: &ObservationState,
    reading: OracleReading,
    amount: u64,
) -> (defined: bool)
    ensures
        defined == burn_defined(
            *pool_state,
            *accounts,
            *latest_observation,
            *next_observation,
            reading,
            amount,
        ),
{
    if amount > i32::MAX as u64 {
        return false;
    }
    let liquidity_delta = -(amount as i32);
    let mut pool = *pool_state;
    pool.unlocked = false;
    if !modify_position_is_defined(&pool, accounts, latest_observation, reading, liquidity_delta) {
        return false;
    }
    let mut updated = *accounts;
    match _modify_position(
        &mut pool,
        &mut updated,
        latest_observation,
        next_observation,
        reading,
        liquidity_delta,
    ) {
        Ok(outcome) => {
            proof {
                lemma_removed_amounts_negatable(
                    locked(*pool_state),
                    accounts.tick_lower.tick,
                    accounts.tick_upper.tick,
                    liquidity_delta,
                );
            }
            let amount_0 = (-outcome.amount_0) as u64;
            let amount_1 = (-outcome.amount_1) as u64;
            updated.position.tokens_owed_0.checked_add(amount_0).is_some()
                && updated.position.tokens_owed_1.checked_add(amount_1).is_some()
        },
        Err(_) => true,
    }
}

/// Burn liquidity from the sender and account tokens owed for the liquidity to the position.
/// Can be used to trigger a recalculation of fees owed to a position by calling with an amount
/// of 0 (poke).  Fees must be collected separately.
///
/// Debits `amount` of liquidity through `_modify_position`, adds the freed amounts to the
/// position's tokens owed and returns them, with what happened to the boundary ticks: those that
/// became uninitialized are to be closed.  Fails with `LOK` when the pool is locked, else with
/// the error of `_modify_position`; nothing changes on error.
///
/// # Arguments
///
/// * `pool_state` - The pool
/// * `accounts` - The position, its boundary ticks and their bitmap words
/// * `latest_observation` - Most recent oracle observation
/// * `next_observation` - Account to store the next oracle observation
/// * `reading` - The oracle values at the current block time
/// * `amount` - Amount of liquidity to be burned, at most `i32::MAX`
pub fn burn(
    pool_state: &mut PoolState,
    accounts: &mut PositionAccounts,
    latest_observation: &ObservationState,
    next_observation: &ObservationState,
    reading: OracleReading,
    amount: u64,
) -> (result: Result<(u64, u64, PositionUpdate), ErrorCode>)
    requires
        old(pool_state).unlocked ==> burn_defined(
            *old(pool_state),
            *old(accounts),
            *latest_observation,
            *next_observation,
            reading,
            amount,
        ),
    ensures
        !old(pool_state).unlocked ==> {
            &&& result == Err::<(u64, u64, PositionUpdate), ErrorCode>(ErrorCode::LOK)
            &&& *final(pool_state) == *old(pool_state)
            &&& *final(accounts) == *old(accounts)
        },
        old(pool_state).unlocked ==> match modify_position_effect(
            locked(*old(pool_state)),
            *old(accounts),
            *latest_observation,
            *next_observation,
            reading,
            (-amount) as i32,
        ) {
            Err(e) => {
                &&& result == Err::<(u64, u64, PositionUpdate), ErrorCode>(e)
                &&& *final(pool_state) == *old(pool_state)
                &&& *final(accounts) == *old(accounts)
            },
            Ok((pool_after, accounts_after, outcome)) => {
                let amounts = burned_amounts(outcome);
                &&& result == Ok::<(u64, u64, PositionUpdate), ErrorCode>(
                    (amounts.0, amounts.1, outcome.update),
                )
                &&& *final(pool_state) == (PoolState { unlocked: true, ..pool_after })
                &&& *final(accounts) == (PositionAccounts {
                    position: credit_burned(accounts_after.position, amounts),
                    ..accounts_after
                })
                &&& amounts.0 == -outcome.amount_0 && amounts.1 == -outcome.amount_1
                &&& final(accounts).position.tokens_owed_0 == accounts_after.position.tokens_owed_0
                    + amounts.0
                &&& final(accounts).position.tokens_owed_1 == accounts_after.position.tokens_owed_1
                    + amounts.1
            },
        },
{
    if !pool_state.unlocked {
        return Err(ErrorCode::LOK);
    }
    let mut pool = *pool_state;
    pool.unlocked = false;

    let liquidity_delta = -(amount as i32);
    let mut updated = *accounts;
    let outcome = match _modify_position(
        &mut pool,
        &mut updated,
        latest_observation,
        next_observation,
        reading,
        liquidity_delta,
    ) {
        Ok(outcome) => outcome,
        Err(e) => return Err(e),
    };
    proof {
        lemma_removed_amounts_negatable(
            locked(*old(pool_state)),
            old(accounts).tick_lower.tick,
            old(accounts).tick_upper.tick,
            liquidity_delta,
        );
        lemma_position_amounts_owed(
            locked(*old(pool_state)),
            old(accounts).tick_lower.tick,
            old(accounts).tick_upper.tick,
            liquidity_delta,
        );
    }

    let amount_0 = (-outcome.amount_0) as u64;
    let amount_1 = (-outcome.amount_1) as u64;
    if amount_0 > 0 || amount_1 > 0 {
        updated.position.tokens_owed_0 = updated.position.tokens_owed_0 + amount_0;
        updated.position.tokens_owed_1 = updated.position.tokens_owed_1 + amount_1;
    }

    pool.unlocked = true;
    *pool_state = pool;
    *accounts = updated;
    Ok((amount_0, amount_1, outcome.update))
}

} // verus!
