use cyclos_core::error::ErrorCode;
use cyclos_core::instructions::create_and_init_pool;
use cyclos_core::modify_position::{
    _modify_position, _update_position, ObservationSlot, OracleReading, PositionAccounts,
};
use cyclos_core::states::fee::FeeState;
use cyclos_core::states::oracle::ObservationState;
use cyclos_core::states::position::PositionState;
use cyclos_core::states::tick::TickState;
use cyclos_core::states::tick_bitmap::TickBitmapState;

fn reading(time: u32) -> OracleReading {
    OracleReading { time, tick_cumulative: 5, seconds_per_liquidity_cumulative_x32: 6 }
}

fn same_word_accounts() -> PositionAccounts {
    let bitmap = TickBitmapState { bump: 0, word_pos: -1, word: [0, 0, 0, 0] };
    PositionAccounts {
        position: PositionState::default(),
        tick_lower: TickState { tick: -120, ..TickState::default() },
        tick_upper: TickState { tick: -60, ..TickState::default() },
        bitmap_lower: bitmap,
        bitmap_upper: bitmap,
        same_bitmap: true,
    }
}

#[test]
fn update_position_flips_both_bits_in_one_word() {
    let fee = FeeState { bump: 0, fee: 500, tick_spacing: 60 };
    let (pool, _) = create_and_init_pool(0, 0, [0u8; 32], [0u8; 32], &fee, 1 << 32, 0).unwrap();
    let mut acc = same_word_accounts();
    let update = _update_position(&pool, &mut acc, reading(7), 1000).unwrap();
    assert!(update.flipped_lower && update.flipped_upper);
    assert!(!update.close_tick_lower && !update.close_tick_upper);
    // ticks -120 and -60 are bits 136 and 196 of word -1, both in bitmap_lower
    assert_eq!(acc.bitmap_lower.word, [0, 0, 1 << 8, 1 << 4]);
    assert_eq!(acc.bitmap_upper.word, [0, 0, 0, 0]);
    // both ticks lie below the current tick 0: their outside values start at the globals
    assert_eq!(acc.tick_lower.seconds_outside, 7);
    assert_eq!(acc.tick_upper.tick_cumulative_outside, 5);

    let update = _update_position(&pool, &mut acc, reading(8), -1000).unwrap();
    assert!(update.close_tick_lower && update.close_tick_upper);
    assert_eq!(acc.bitmap_lower.word, [0, 0, 0, 0]);
}

#[test]
fn modify_position_above_range_owes_token_1_only() {
    let fee = FeeState { bump: 0, fee: 500, tick_spacing: 60 };
    let (mut pool, _) = create_and_init_pool(0, 0, [0u8; 32], [0u8; 32], &fee, 1 << 32, 0).unwrap();
    let mut acc = same_word_accounts();
    let latest = ObservationState::default();
    let outcome = _modify_position(&mut pool, &mut acc, &latest, &latest, reading(7), 1000).unwrap();
    assert_eq!(outcome.amount_0, 0);
    assert!(outcome.amount_1 > 0);
    assert_eq!(outcome.observation, None);
    assert_eq!(pool.liquidity, 0);

    let outcome = _modify_position(&mut pool, &mut acc, &latest, &latest, reading(8), -1000).unwrap();
    assert!(outcome.amount_1 < 0);
    assert_eq!(acc.position.liquidity, 0);
}

#[test]
fn modify_position_in_range_records_the_observation() {
    let fee = FeeState { bump: 0, fee: 500, tick_spacing: 60 };
    let (mut pool, _) = create_and_init_pool(0, 0, [0u8; 32], [0u8; 32], &fee, 1 << 32, 0).unwrap();
    let mut acc = same_word_accounts();
    acc.tick_upper.tick = 60;
    acc.same_bitmap = false;
    let latest = ObservationState { index: 2, block_timestamp: 28, ..ObservationState::default() };
    let next = ObservationState { index: 3, ..ObservationState::default() };
    let outcome = _modify_position(&mut pool, &mut acc, &latest, &next, reading(42), 1000).unwrap();
    assert_eq!(outcome.observation, Some(ObservationSlot::Next));
    assert_eq!(pool.observation_index, 3);
    assert_eq!(pool.liquidity, 1000);

    // removing more than the pool's liquidity fails and changes nothing
    let before = pool.liquidity;
    assert_eq!(
        _modify_position(&mut pool, &mut acc, &latest, &next, reading(42), -2000),
        Err(ErrorCode::LS)
    );
    assert_eq!(pool.liquidity, before);
    assert_eq!(acc.position.liquidity, 1000);
}
