use cyclos_core::states::position::PositionState;

#[test]
fn update_credits_fees_and_liquidity() {
    let mut position = PositionState {
        liquidity: 1000,
        fee_growth_inside_0_last_x32: 5,
        fee_growth_inside_1_last_x32: u64::MAX,
        tokens_owed_0: 1,
        tokens_owed_1: 2,
        ..PositionState::default()
    };
    position.update(500, 7, 1);
    assert_eq!(position.liquidity, 1500);
    // fees on the liquidity before the change: 1000 * (7 - 5) and 1000 * (1 - u64::MAX mod 2^64)
    assert_eq!(position.tokens_owed_0, 1 + 2000);
    assert_eq!(position.tokens_owed_1, 2 + 2000);
    assert_eq!(position.fee_growth_inside_0_last_x32, 7);
    assert_eq!(position.fee_growth_inside_1_last_x32, 1);
}

#[test]
fn update_then_revert_with_same_fee_growth() {
    let mut position = PositionState { liquidity: 10, fee_growth_inside_0_last_x32: 3, ..PositionState::default() };
    position.update(90, 4, 0);
    let once = position;
    assert_eq!(once.liquidity, 100);
    assert_eq!(once.tokens_owed_0, 10);
    position.update(-90, 4, 0);
    assert_eq!(position.liquidity, 10);
    assert_eq!(position.tokens_owed_0, once.tokens_owed_0);
    assert_eq!(position.tokens_owed_1, once.tokens_owed_1);
}

#[test]
fn poke_credits_fees_without_changing_liquidity() {
    let mut position = PositionState { liquidity: 3, ..PositionState::default() };
    position.update(0, 10, 20);
    assert_eq!(position.liquidity, 3);
    assert_eq!(position.tokens_owed_0, 30);
    assert_eq!(position.tokens_owed_1, 60);
}

#[test]
fn tokens_owed_wrap_around() {
    let mut position = PositionState { liquidity: 1, tokens_owed_0: u64::MAX, ..PositionState::default() };
    position.update(0, 2, 0);
    assert_eq!(position.tokens_owed_0, 1);
}
