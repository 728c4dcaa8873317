use cyclos_core::libraries::fixed_point_x32;
use cyclos_core::libraries::sqrt_price_math::{
    get_amount_0_delta_signed, get_amount_0_delta_unsigned, get_amount_1_delta_signed,
    get_amount_1_delta_unsigned, get_next_sqrt_price_from_amount_0_rounding_up,
    get_next_sqrt_price_from_amount_1_rounding_down, get_next_sqrt_price_from_input,
    get_next_sqrt_price_from_output,
};

#[test]
fn any_input_amount_cannot_underflow_the_price() {
    let sqrt_p_x32 = 1;
    let liquidity = 1;
    let amount_in = u64::pow(2, 63);

    assert_eq!(get_next_sqrt_price_from_input(sqrt_p_x32, liquidity, amount_in, true), 1);
}

#[test]
fn returns_input_price_if_amount_in_is_zero_and_zero_for_one_is_true() {
    let sqrt_p_x32 = 1 * fixed_point_x32::Q32;
    assert_eq!(
        get_next_sqrt_price_from_input(sqrt_p_x32, u32::pow(10, 8), 0, true),
        sqrt_p_x32
    );
}

#[test]
fn returns_input_price_if_amount_in_is_zero_and_zero_for_one_is_false() {
    let sqrt_p_x32 = 1 * fixed_point_x32::Q32;
    assert_eq!(
        get_next_sqrt_price_from_input(sqrt_p_x32, u32::pow(10, 8), 0, false),
        sqrt_p_x32
    );
}

#[test]
fn returns_the_minimum_price_for_max_inputs() {
    let sqrt_p_x32 = u64::MAX - 1;
    let liquidity = u32::MAX;
    let max_amount_no_overflow =
        u64::MAX - (((liquidity as u64) << fixed_point_x32::RESOLUTION) / sqrt_p_x32);

    assert_eq!(
        get_next_sqrt_price_from_input(sqrt_p_x32, liquidity, max_amount_no_overflow, true),
        1
    );
}

#[test]
fn input_amount_of_01_token_1() {
    let sqrt_p_x32 = 1 * fixed_point_x32::Q32;
    let liquidity = u32::pow(10, 8);
    let amount_0_in = u64::pow(10, 7);
    assert_eq!(
        get_next_sqrt_price_from_input(sqrt_p_x32, liquidity, amount_0_in, false),
        4724464025
    );
}

#[test]
fn input_amount_of_01_token_0() {
    let sqrt_p_x32 = 1 * fixed_point_x32::Q32;
    let liquidity = u32::pow(10, 8);
    let amount_0_in = u64::pow(10, 7);
    assert_eq!(
        get_next_sqrt_price_from_input(sqrt_p_x32, liquidity, amount_0_in, true),
        3904515724
    );
}

#[test]
fn amount_in_gt_u32_max_and_for_token_1() {
    let sqrt_p_x32 = 1 * fixed_point_x32::Q32;
    let liquidity = u32::pow(10, 8);
    let amount_0_in = u64::pow(10, 12);
    assert_eq!(
        get_next_sqrt_price_from_input(sqrt_p_x32, liquidity, amount_0_in, true),
        429454
    );
}

#[test]
fn output_moves_price_the_other_way() {
    let sqrt_p_x32 = fixed_point_x32::Q32;
    let liquidity = u32::pow(10, 8);
    // removing token_1 lowers the price, rounded down: 2^32 * (1 - 0.1)
    assert_eq!(
        get_next_sqrt_price_from_output(sqrt_p_x32, liquidity, u64::pow(10, 7), true),
        3865470566
    );
    // removing token_0 raises the price, rounded up: 2^32 / (1 - 0.1)
    assert_eq!(
        get_next_sqrt_price_from_output(sqrt_p_x32, liquidity, u64::pow(10, 7), false),
        4772185885
    );
}

#[test]
fn next_price_helpers_round_in_the_documented_direction() {
    let q = fixed_point_x32::Q32;
    assert_eq!(get_next_sqrt_price_from_amount_1_rounding_down(q, 3, 1, true), q + q / 3);
    assert_eq!(get_next_sqrt_price_from_amount_1_rounding_down(q, 3, 1, false), q - q / 3 - 1);
    assert_eq!(get_next_sqrt_price_from_amount_0_rounding_up(q, 10, 0, true), q);
    assert_eq!(get_next_sqrt_price_from_amount_0_rounding_up(q, 3, 1, true), 3221225472);
}

#[test]
fn amount_deltas_round_up_for_owed_and_down_for_paid() {
    let a = 4282102345u64; // price at tick -60
    let b = 4307870899u64; // price at tick 60
    let q = fixed_point_x32::Q32;
    assert_eq!(get_amount_0_delta_unsigned(q, b, 1_000_000, true), 2996);
    assert_eq!(get_amount_0_delta_unsigned(q, b, 1_000_000, false), 2995);
    assert_eq!(get_amount_1_delta_unsigned(a, q, 1_000_000, true), 2996);
    assert_eq!(get_amount_1_delta_unsigned(q, a, 1_000_000, false), 2995);
    assert_eq!(get_amount_0_delta_signed(q, b, 1_000_000), 2996);
    assert_eq!(get_amount_0_delta_signed(q, b, -1_000_000), -2995);
    assert_eq!(get_amount_1_delta_signed(a, q, 1_000_000), 2996);
    assert_eq!(get_amount_1_delta_signed(a, q, -1_000_000), -2995);
    // one unit of price over 2^32: token_1 amount is L / 2^32, rounded
    assert_eq!(get_amount_1_delta_unsigned(q, 2 * q, u32::pow(10, 8), true), 100000000);
    assert_eq!(get_amount_1_delta_unsigned(q, q + 1, 1, true), 1);
    assert_eq!(get_amount_1_delta_unsigned(q, q + 1, 1, false), 0);
}
