use cyclos_core::error::ErrorCode;
use cyclos_core::instructions::{
    burn, burn_is_defined, check_mint_payment, check_tick, check_ticks, collect_protocol,
    create_and_init_pool, enable_fee_amount, increase_observation_cardinality_next,
    init_bitmap_account, init_factory, init_position_account, init_tick_account, mint,
    set_fee_protocol, set_owner,
};
use cyclos_core::modify_position::{
    modify_position_is_defined, ObservationSlot, OracleReading, PositionAccounts,
};
use cyclos_core::states::fee::FeeState;
use cyclos_core::states::oracle::ObservationState;
use cyclos_core::states::pool::PoolState;
use cyclos_core::states::position::PositionState;
use cyclos_core::states::tick::TickState;
use cyclos_core::states::tick_bitmap::TickBitmapState;

fn fee_state() -> FeeState {
    enable_fee_amount(3, 500, 60)
}

fn pool_at(sqrt_price_x32: u64) -> PoolState {
    let (pool, _) = create_and_init_pool(1, 2, [1u8; 32], [2u8; 32], &fee_state(), sqrt_price_x32, 100).unwrap();
    pool
}

fn accounts(tick_lower: i32, tick_upper: i32) -> PositionAccounts {
    PositionAccounts {
        position: PositionState::default(),
        tick_lower: TickState { tick: tick_lower, ..TickState::default() },
        tick_upper: TickState { tick: tick_upper, ..TickState::default() },
        bitmap_lower: TickBitmapState { bump: 0, word_pos: (tick_lower >> 8) as i16, word: [0, 0, 0, 0] },
        bitmap_upper: TickBitmapState { bump: 0, word_pos: (tick_upper >> 8) as i16, word: [0, 0, 0, 0] },
        same_bitmap: false,
    }
}

fn reading() -> OracleReading {
    OracleReading { time: 100, tick_cumulative: 0, seconds_per_liquidity_cumulative_x32: 0 }
}

fn observation(index: u16, block_timestamp: u32) -> ObservationState {
    ObservationState { index, block_timestamp, initialized: true, ..ObservationState::default() }
}

#[test]
fn check_tick_errors() {
    assert_eq!(check_tick(0, 60), Ok(()));
    assert_eq!(check_tick(-120, 60), Ok(()));
    assert_eq!(check_tick(-221819, 1), Err(ErrorCode::TLM));
    assert_eq!(check_tick(221819, 1), Err(ErrorCode::TUM));
    assert_eq!(check_tick(61, 60), Err(ErrorCode::TMS));
    assert_eq!(check_tick(-61, 60), Err(ErrorCode::TMS));
    // a tick out of range fails before the spacing is used
    assert_eq!(check_tick(-221819, 0), Err(ErrorCode::TLM));
    assert_eq!(check_tick(221819, 0), Err(ErrorCode::TUM));
    assert_eq!(check_ticks(-60, 60), Ok(()));
    assert_eq!(check_ticks(60, 60), Err(ErrorCode::TLU));
}

#[test]
fn factory_owner_changes() {
    let mut factory = init_factory(7, [1u8; 32]);
    assert_eq!(factory.bump, 7);
    assert_eq!(set_owner(&mut factory, [2u8; 32]), [1u8; 32]);
    assert_eq!(factory.owner, [2u8; 32]);
    assert_eq!(factory.bump, 7);
}

#[test]
fn create_pool_sets_tick_of_price() {
    let (pool, observation) =
        create_and_init_pool(1, 2, [1u8; 32], [2u8; 32], &fee_state(), 4307870899, 1234).unwrap();
    assert_eq!(pool.tick, 60);
    assert_eq!(pool.fee, 500);
    assert_eq!(pool.tick_spacing, 60);
    assert!(pool.unlocked);
    assert_eq!(pool.observation_cardinality, 1);
    assert_eq!(pool.observation_cardinality_next, 1);
    assert_eq!(observation.block_timestamp, 1234);
    assert!(observation.initialized);
    assert_eq!(
        create_and_init_pool(1, 2, [1u8; 32], [2u8; 32], &fee_state(), 1, 0).unwrap_err(),
        ErrorCode::R
    );
}

#[test]
fn cardinality_grows_and_lock_is_checked() {
    let mut pool = pool_at(1 << 32);
    let (old_next, created) = increase_observation_cardinality_next(&mut pool, &vec![7, 8, 9]).unwrap();
    assert_eq!(old_next, 1);
    assert_eq!(created.len(), 3);
    assert_eq!(created[0].index, 1);
    assert_eq!(created[2].index, 3);
    assert_eq!(created[1].bump, 8);
    assert_eq!(created[1].block_timestamp, 1);
    assert!(!created[1].initialized);
    assert_eq!(pool.observation_cardinality_next, 4);
    assert!(pool.unlocked);
    pool.unlocked = false;
    assert_eq!(increase_observation_cardinality_next(&mut pool, &vec![1]).unwrap_err(), ErrorCode::LOK);
    assert_eq!(pool.observation_cardinality_next, 4);
}

#[test]
fn fee_protocol_round_trip() {
    let mut pool = pool_at(1 << 32);
    assert_eq!(set_fee_protocol(&mut pool, 4, 10), Ok((0, 0)));
    assert_eq!(pool.fee_protocol, 10 * 16 + 4);
    assert_eq!(pool.get_fee_protocol_0(), 4);
    assert_eq!(pool.get_fee_protocol_1(), 10);
    assert_eq!(set_fee_protocol(&mut pool, 0, 6), Ok((4, 10)));
    assert_eq!(set_fee_protocol(&mut pool, 5, 0), Ok((0, 6)));
    pool.unlocked = false;
    assert_eq!(set_fee_protocol(&mut pool, 5, 0), Err(ErrorCode::LOK));
}

#[test]
fn collect_protocol_takes_at_most_the_accrued_fees() {
    let mut pool = pool_at(1 << 32);
    pool.protocol_fees_token_0 = 100;
    pool.protocol_fees_token_1 = 50;
    assert_eq!(collect_protocol(&mut pool, 30, u64::MAX), Ok((30, 50)));
    assert_eq!(pool.protocol_fees_token_0, 70);
    assert_eq!(pool.protocol_fees_token_1, 0);
    assert_eq!(collect_protocol(&mut pool, 0, 1), Ok((0, 0)));
    pool.unlocked = false;
    assert_eq!(collect_protocol(&mut pool, 1, 1), Err(ErrorCode::LOK));
    assert_eq!(pool.protocol_fees_token_0, 70);
}

#[test]
fn account_initialization() {
    let pool = pool_at(1 << 32);
    let tick = init_tick_account(&pool, 9, -120).unwrap();
    assert_eq!(tick.bump, 9);
    assert_eq!(tick.tick, -120);
    assert_eq!(tick.liquidity_gross, 0);
    assert_eq!(init_tick_account(&pool, 9, -121).unwrap_err(), ErrorCode::TMS);
    let bitmap = init_bitmap_account(&pool, 8, -120).unwrap();
    assert_eq!(bitmap.word_pos, -1);
    assert_eq!(bitmap.word, [0, 0, 0, 0]);
    let bitmap = init_bitmap_account(&pool, 8, 600).unwrap();
    assert_eq!(bitmap.word_pos, 2);
    assert_eq!(init_bitmap_account(&pool, 8, 221880).unwrap_err(), ErrorCode::TUM);
    let position = init_position_account(5);
    assert_eq!(position.bump, 5);
    assert_eq!(position.liquidity, 0);
}

#[test]
fn mint_in_range_then_burn() {
    let mut pool = pool_at(1 << 32);
    let mut acc = accounts(-60, 60);
    let latest = observation(0, 100);
    let next = observation(1, 0);

    let owed = mint(&mut pool, &mut acc, &latest, &next, reading(), 1_000_000).unwrap();
    assert_eq!(owed, (2996, 2996));
    assert!(!pool.unlocked);
    assert_eq!(pool.liquidity, 1_000_000);
    assert_eq!(acc.position.liquidity, 1_000_000);
    assert_eq!(acc.tick_lower.liquidity_gross, 1_000_000);
    assert_eq!(acc.tick_lower.liquidity_net, 1_000_000);
    assert_eq!(acc.tick_upper.liquidity_net, -1_000_000);
    // tick -60 is bit 196 of word -1, tick 60 bit 60 of word 0
    assert_eq!(acc.bitmap_lower.word, [0, 0, 0, 1 << 4]);
    assert_eq!(acc.bitmap_upper.word, [1 << 60, 0, 0, 0]);

    // the payment check: exactly the owed amounts arrived
    assert_eq!(check_mint_payment(&mut pool, 2996, 2996, 10, 20, 10 + 2996, 20 + 2996), Ok(()));
    assert!(pool.unlocked);

    let (freed_0, freed_1, update) = burn(&mut pool, &mut acc, &latest, &next, reading(), 1_000_000).unwrap();
    assert_eq!((freed_0, freed_1), (2995, 2995));
    assert!(update.close_tick_lower && update.close_tick_upper);
    assert!(pool.unlocked);
    assert_eq!(pool.liquidity, 0);
    assert_eq!(acc.position.liquidity, 0);
    assert_eq!(acc.position.tokens_owed_0, 2995);
    assert_eq!(acc.position.tokens_owed_1, 2995);
    assert_eq!(acc.tick_lower.liquidity_gross, 0);
    assert_eq!(acc.bitmap_lower.word, [0, 0, 0, 0]);
    assert_eq!(acc.bitmap_upper.word, [0, 0, 0, 0]);
}

#[test]
fn mint_below_and_above_range() {
    // current tick -100 lies below [-60, 60): only token_0 is owed
    let mut pool = pool_at(4273547126);
    assert_eq!(pool.tick, -100);
    let mut acc = accounts(-60, 60);
    let latest = observation(0, 100);
    let owed = mint(&mut pool, &mut acc, &latest, &latest, reading(), 1_000_000).unwrap();
    assert_eq!(owed, (6000, 0));
    assert_eq!(pool.liquidity, 0);

    // current tick 100 lies above: only token_1 is owed
    let mut pool = pool_at(4316494831);
    assert_eq!(pool.tick, 100);
    let mut acc = accounts(-60, 60);
    let owed = mint(&mut pool, &mut acc, &latest, &latest, reading(), 1_000_000).unwrap();
    assert_eq!(owed, (0, 6000));
}

#[test]
fn mint_errors_change_nothing() {
    let latest = observation(0, 100);
    let mut pool = pool_at(1 << 32);
    let mut acc = accounts(60, -60);
    assert_eq!(mint(&mut pool, &mut acc, &latest, &latest, reading(), 10), Err(ErrorCode::TLU));
    assert!(pool.unlocked);
    assert_eq!(acc.tick_lower.liquidity_gross, 0);

    let mut acc = accounts(-60, 60);
    pool.unlocked = false;
    assert_eq!(mint(&mut pool, &mut acc, &latest, &latest, reading(), 10), Err(ErrorCode::LOK));

    // more liquidity than a tick may hold
    let mut pool = pool_at(1 << 32);
    acc.tick_upper.liquidity_gross = 2495163543042006;
    assert_eq!(mint(&mut pool, &mut acc, &latest, &latest, reading(), 10), Err(ErrorCode::LO));
    assert_eq!(acc.tick_lower.liquidity_gross, 0);
    assert!(pool.unlocked);
}

#[test]
fn mint_payment_shortfall() {
    let mut pool = pool_at(1 << 32);
    pool.unlocked = false;
    assert_eq!(check_mint_payment(&mut pool, 5, 5, 10, 20, 14, 25), Err(ErrorCode::M0));
    assert!(!pool.unlocked);
    assert_eq!(check_mint_payment(&mut pool, 5, 5, 10, 20, 15, 24), Err(ErrorCode::M1));
    // token_1 is checked on its own, whether or not token_0 is owed
    assert_eq!(check_mint_payment(&mut pool, 0, 50, 0, 100, 0, 100), Err(ErrorCode::M1));
    assert!(!pool.unlocked);
    assert_eq!(check_mint_payment(&mut pool, 0, 50, 0, 100, 0, 150), Ok(()));
    assert!(pool.unlocked);
}

#[test]
fn observation_slot_follows_partitions() {
    let mut pool = pool_at(1 << 32);
    let mut acc = accounts(-60, 60);
    // latest observation at 100 lies in partition 7 = [98, 112)
    let latest = observation(3, 100);
    let next = observation(4, 0);
    let r = OracleReading { time: 111, ..reading() };
    mint(&mut pool, &mut acc, &latest, &next, r, 10).unwrap();
    assert_eq!(pool.observation_index, 3);
    let mut pool = pool_at(1 << 32);
    let mut acc = accounts(-60, 60);
    let r = OracleReading { time: 112, ..reading() };
    mint(&mut pool, &mut acc, &latest, &next, r, 10).unwrap();
    assert_eq!(pool.observation_index, 4);
    let _ = ObservationSlot::Next;
}

#[test]
fn defined_inputs_are_recognised() {
    let pool = pool_at(1 << 32);
    let acc = accounts(-60, 60);
    let latest = observation(0, 100);
    let next = observation(1, 0);
    assert!(modify_position_is_defined(&pool, &acc, &latest, reading(), 1_000_000));
    // a poke of an empty position panics
    assert!(!modify_position_is_defined(&pool, &acc, &latest, reading(), 0));
    // a non-zero change needs a non-zero tick spacing
    let flat = PoolState { tick_spacing: 0, ..pool };
    assert!(!modify_position_is_defined(&flat, &acc, &latest, reading(), 1_000_000));
    // a zero price in range panics once the upper tick has a price
    let zero_price = PoolState { sqrt_price_x32: 0, ..pool };
    assert!(!modify_position_is_defined(&zero_price, &acc, &latest, reading(), 1_000_000));
    // ticks in the wrong order fail with an error, not a panic
    assert!(modify_position_is_defined(&pool, &accounts(60, -60), &latest, reading(), 1_000_000));

    // burning: the amount must fit the signed delta; burning from empty ticks fails with an
    // error, not a panic
    assert!(!burn_is_defined(&pool, &acc, &latest, &next, reading(), 1 << 31));
    assert!(burn_is_defined(&pool, &acc, &latest, &next, reading(), 1_000_000));
    let mut minted_pool = pool;
    let mut minted = acc;
    mint(&mut minted_pool, &mut minted, &latest, &next, reading(), 1_000_000).unwrap();
    check_mint_payment(&mut minted_pool, 2996, 2996, 0, 0, 2996, 2996).unwrap();
    assert!(burn_is_defined(&minted_pool, &minted, &latest, &next, reading(), 1_000_000));
    // tokens owed that cannot take the freed amounts
    let mut full = minted;
    full.position.tokens_owed_0 = u64::MAX;
    assert!(!burn_is_defined(&minted_pool, &full, &latest, &next, reading(), 1_000_000));
}
