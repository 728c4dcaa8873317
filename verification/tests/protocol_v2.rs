use cyclos_core::protocol_v2::{
    enable_fee_amount, initialize, tick_spacing_to_max_liquidity_per_tick, ErrorCode,
};

#[test]
fn v2_fee_tier_limits() {
    let fee = enable_fee_amount(1_000_000, 16384, 4).unwrap();
    assert_eq!((fee.bump, fee.fee, fee.tick_spacing), (4, 1_000_000, 16384));
    assert_eq!(enable_fee_amount(1_000_001, 60, 4), Err(ErrorCode::FeeLimit));
    assert_eq!(enable_fee_amount(500, 16385, 4), Err(ErrorCode::TickSpacingLimit));
    assert_eq!(enable_fee_amount(1_000_001, 16385, 4), Err(ErrorCode::FeeLimit));
}

#[test]
fn v2_initialize_sets_owner() {
    let factory = initialize(3, [9u8; 32]);
    assert_eq!(factory.bump, 3);
    assert_eq!(factory.owner, [9u8; 32]);
}

#[test]
fn v2_liquidity_per_tick() {
    // (443580 + 443580) / 60 + 1 ticks
    assert_eq!(tick_spacing_to_max_liquidity_per_tick(60), u32::MAX / 14787);
    assert_eq!(tick_spacing_to_max_liquidity_per_tick(60), 290455);
    // a negative spacing counts -14786 + 1 ticks
    assert_eq!(tick_spacing_to_max_liquidity_per_tick(-60), u32::MAX / 14785);
}

#[test]
fn position_manager_initialize() {
    let state = cyclos_core::states::position_manager::initialize(11);
    assert_eq!(state.bump, 11);
}

#[test]
fn v2_check_ticks_accepts_ordered_ticks_in_range() {
    cyclos_core::protocol_v2::check_ticks(-443636, 443636);
    cyclos_core::protocol_v2::check_ticks(-60, 60);
}
