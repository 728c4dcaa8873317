use cyclos_core::error::ErrorCode;
use cyclos_core::libraries::tick_math::{
    get_sqrt_ratio_at_tick, get_tick_at_sqrt_ratio, MAX_SQRT_RATIO, MAX_TICK, MIN_SQRT_RATIO,
    MIN_TICK,
};
use cyclos_core::libraries::tick_math_x16;

#[test]
fn sqrt_price_error_under_1_bps() {
    for tick in MIN_TICK..=MAX_TICK {
        let sqrt_price_x32 = get_sqrt_ratio_at_tick(tick).unwrap();
        let sqrt_price = (sqrt_price_x32 as f64) / (4294967296.0);
        let float_price = f64::powf(1.0001, (tick as f64) / 2.0);

        // Error should be under 0.01%
        let deviation = (sqrt_price - float_price) / float_price;
        assert!(deviation.abs() < 0.0001);
    }
}

#[test]
fn sqrt_price_increases_with_tick() {
    let mut prev_price_x32: u64 = 0;
    for tick in MIN_TICK..=MAX_TICK {
        let sqrt_price_x32 = get_sqrt_ratio_at_tick(tick).unwrap();
        if prev_price_x32 != 0 {
            assert!(sqrt_price_x32 > prev_price_x32);
        }
        prev_price_x32 = sqrt_price_x32;
    }
}

#[test]
fn retrieve_original_tick() {
    for tick in MIN_TICK..=MAX_TICK {
        let sqrt_price_x32 = get_sqrt_ratio_at_tick(tick).unwrap();
        let obtained_tick = get_tick_at_sqrt_ratio(sqrt_price_x32).unwrap();
        assert_eq!(tick, obtained_tick, "Tick {}, obtained tick {}", tick, obtained_tick);
    }
}

#[test]
fn ratio_of_min_tick() {
    let tick = MIN_TICK - 1;
    let obtained_ratio = get_tick_at_sqrt_ratio(MIN_SQRT_RATIO).unwrap();
    assert_eq!(tick, obtained_ratio, "Tick {}, obtained ratio {}", tick, obtained_ratio);
}

#[test]
fn ratio_closest_to_max_tick() {
    let obtained_ratio = get_tick_at_sqrt_ratio(MAX_SQRT_RATIO - 1).unwrap();
    assert_eq!(MAX_TICK, obtained_ratio, "Tick {}, obtained ratio {}", MAX_TICK, obtained_ratio);
}

#[test]
fn ticks_out_of_range_fail_with_t() {
    assert_eq!(get_sqrt_ratio_at_tick(MIN_TICK - 1), Err(ErrorCode::T));
    assert_eq!(get_sqrt_ratio_at_tick(MAX_TICK + 1), Err(ErrorCode::T));
    assert_eq!(get_sqrt_ratio_at_tick(i32::MIN), Err(ErrorCode::T));
}

#[test]
fn prices_out_of_range_fail_with_r() {
    assert_eq!(get_tick_at_sqrt_ratio(MIN_SQRT_RATIO - 1), Err(ErrorCode::R));
    assert_eq!(get_tick_at_sqrt_ratio(MAX_SQRT_RATIO), Err(ErrorCode::R));
    assert_eq!(get_tick_at_sqrt_ratio(0), Err(ErrorCode::R));
}

#[test]
fn known_prices() {
    assert_eq!(get_sqrt_ratio_at_tick(0), Ok(4294967296));
    assert_eq!(get_sqrt_ratio_at_tick(-60), Ok(4282102345));
    assert_eq!(get_sqrt_ratio_at_tick(60), Ok(4307870899));
    assert_eq!(get_sqrt_ratio_at_tick(-100), Ok(4273547126));
    assert_eq!(get_sqrt_ratio_at_tick(100), Ok(4316494831));
    assert_eq!(get_tick_at_sqrt_ratio(4294967296), Ok(0));
    // a price just below tick 60's price lies in tick 59
    assert_eq!(get_tick_at_sqrt_ratio(4307870898), Ok(59));
}

#[test]
fn valid_tick() {
    let mut prev_price_x32: u64 = 0;
    for tick in tick_math_x16::MIN_TICK..=tick_math_x16::MAX_TICK {
        let sqrt_price_x32 = tick_math_x16::sqrt_price_x32(tick);
        let sqrt_price = (sqrt_price_x32 as f64) / (4294967296.0);
        let float_price = f64::powf(1.0001, (tick as f64) / 2.0);
        let deviation = (sqrt_price - float_price) / float_price;

        assert!(deviation.abs() < 0.0001); // 0.01% error margin
        if prev_price_x32 != 0 {
            assert!(sqrt_price_x32 > prev_price_x32);
        }
        prev_price_x32 = sqrt_price_x32;
    }
}

#[test]
fn tick_prices_within_accepted_prices() {
    assert_eq!(get_sqrt_ratio_at_tick(MIN_TICK), Ok(65537));
    assert!(get_sqrt_ratio_at_tick(MIN_TICK).unwrap() >= MIN_SQRT_RATIO);
    assert_eq!(get_sqrt_ratio_at_tick(MAX_TICK), Ok(281472331703918));
    assert!(get_sqrt_ratio_at_tick(MAX_TICK).unwrap() < MAX_SQRT_RATIO);
}

#[test]
fn tick_at_price_is_greatest_tick_not_above_it() {
    let mut tick = MIN_TICK;
    while tick < MAX_TICK {
        let price = get_sqrt_ratio_at_tick(tick).unwrap();
        let next_price = get_sqrt_ratio_at_tick(tick + 1).unwrap();
        assert_eq!(get_tick_at_sqrt_ratio(price), Ok(tick));
        assert_eq!(get_tick_at_sqrt_ratio(next_price - 1), Ok(tick));
        assert_eq!(get_tick_at_sqrt_ratio((price + next_price) / 2), Ok(tick));
        tick += 7;
    }
}
