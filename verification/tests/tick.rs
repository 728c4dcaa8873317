use cyclos_core::error::ErrorCode;
use cyclos_core::states::tick::{tick_spacing_to_max_liquidity_per_tick, TickState};

fn tick_at(tick: i32) -> TickState {
    TickState { tick, ..TickState::default() }
}

#[test]
fn liquidity_per_tick() {
    let spacing = tick_spacing_to_max_liquidity_per_tick(200);
    // u64::MAX over the 2 * 1109 + 1 usable ticks
    assert_eq!(spacing, 8313088811946620);
    assert_eq!(tick_spacing_to_max_liquidity_per_tick(60), 2495163543042006);
    assert_eq!(tick_spacing_to_max_liquidity_per_tick(1), u64::MAX / 443637);
}

#[test]
fn update_initializes_below_current_tick_with_global_growth() {
    let mut lower = tick_at(-60);
    let flipped = lower.update(0, 1000, 7, 9, 11, 13, 15, false, 1_000_000).unwrap();
    assert!(flipped);
    assert_eq!(lower.liquidity_gross, 1000);
    assert_eq!(lower.liquidity_net, 1000);
    assert_eq!(lower.fee_growth_outside_0_x32, 7);
    assert_eq!(lower.fee_growth_outside_1_x32, 9);
    assert_eq!(lower.seconds_per_liquidity_outside_x32, 11);
    assert_eq!(lower.tick_cumulative_outside, 13);
    assert_eq!(lower.seconds_outside, 15);

    // a tick above the current tick keeps zero outside values
    let mut upper = tick_at(60);
    let flipped = upper.update(0, 1000, 7, 9, 11, 13, 15, true, 1_000_000).unwrap();
    assert!(flipped);
    assert_eq!(upper.liquidity_net, -1000);
    assert_eq!(upper.fee_growth_outside_0_x32, 0);

    // the tick at the current tick is not below it: its outside values stay zero
    let mut at = tick_at(0);
    at.update(0, 5, 7, 9, 11, 13, 15, false, 1_000_000).unwrap();
    assert_eq!(at.fee_growth_outside_0_x32, 0);
}

#[test]
fn update_then_revert_restores_liquidity() {
    let mut t = tick_at(-60);
    assert_eq!(t.update(0, 1000, 7, 9, 11, 13, 15, false, 1_000_000), Ok(true));
    assert_eq!(t.update(0, 500, 8, 9, 11, 13, 15, false, 1_000_000), Ok(false));
    assert_eq!(t.update(0, -500, 8, 9, 11, 13, 15, false, 1_000_000), Ok(false));
    assert_eq!(t.update(0, -1000, 8, 9, 11, 13, 15, false, 1_000_000), Ok(true));
    assert_eq!(t.liquidity_gross, 0);
    assert_eq!(t.liquidity_net, 0);
}

#[test]
fn update_errors_leave_the_tick_unchanged() {
    let mut t = tick_at(-60);
    assert_eq!(t.update(0, 2000, 0, 0, 0, 0, 0, false, 1000), Err(ErrorCode::LO));
    assert_eq!(t, tick_at(-60));
    assert_eq!(t.update(0, -1, 0, 0, 0, 0, 0, false, 1000), Err(ErrorCode::LS));
    assert_eq!(t, tick_at(-60));
    let mut full = TickState { liquidity_gross: u64::MAX, ..tick_at(-60) };
    assert_eq!(full.update(0, 1, 0, 0, 0, 0, 0, false, u64::MAX), Err(ErrorCode::LA));
}

#[test]
fn cross_twice_restores_the_tick() {
    let mut t = TickState {
        fee_growth_outside_0_x32: 5,
        fee_growth_outside_1_x32: u64::MAX,
        seconds_per_liquidity_outside_x32: 3,
        tick_cumulative_outside: -4,
        seconds_outside: 2,
        liquidity_net: 77,
        ..tick_at(60)
    };
    let before = t;
    assert_eq!(t.cross(10, 20, 30, 40, 50), 77);
    assert_eq!(t.fee_growth_outside_0_x32, 5);
    assert_eq!(t.fee_growth_outside_1_x32, 21);
    assert_eq!(t.seconds_per_liquidity_outside_x32, 27);
    assert_eq!(t.tick_cumulative_outside, 44);
    assert_eq!(t.seconds_outside, 48);
    assert_eq!(t.cross(10, 20, 30, 40, 50), 77);
    assert_eq!(t, before);
}

#[test]
fn fee_growth_inside_by_position_of_current_tick() {
    let lower = TickState { fee_growth_outside_0_x32: 10, fee_growth_outside_1_x32: 1, ..tick_at(-60) };
    let upper = TickState { fee_growth_outside_0_x32: 20, fee_growth_outside_1_x32: 2, ..tick_at(60) };
    // inside the range: global - below(lower) - above(upper)
    assert_eq!(TickState::get_fee_growth_inside(&lower, &upper, 0, 100, 50), (70, 47));
    // below the range: outside(lower) - outside(upper), wrapping
    assert_eq!(TickState::get_fee_growth_inside(&lower, &upper, -100, 100, 50), (u64::MAX - 9, u64::MAX));
    // above the range
    assert_eq!(TickState::get_fee_growth_inside(&lower, &upper, 100, 100, 50), (10, 1));
}

#[test]
fn crossing_keeps_fee_growth_inside() {
    let lower = TickState { fee_growth_outside_0_x32: 10, fee_growth_outside_1_x32: 1, ..tick_at(-60) };
    let mut upper = TickState { fee_growth_outside_0_x32: 20, fee_growth_outside_1_x32: 2, ..tick_at(60) };
    let inside_before = TickState::get_fee_growth_inside(&lower, &upper, 59, 100, 50);
    upper.cross(100, 50, 0, 0, 0);
    let inside_after = TickState::get_fee_growth_inside(&lower, &upper, 60, 100, 50);
    assert_eq!(inside_before, inside_after);
}

#[test]
fn negative_spacing_wraps_the_tick_count() {
    // the negative count wraps around u64, leaving a single unit per tick
    assert_eq!(tick_spacing_to_max_liquidity_per_tick(-60), 1);
    assert_eq!(tick_spacing_to_max_liquidity_per_tick(-1), 1);
    // a spacing wider than the tick range leaves no tick but zero
    assert_eq!(tick_spacing_to_max_liquidity_per_tick(-500000), u64::MAX);
}
