use cyclos_core::error::ErrorCode;
use cyclos_core::libraries::liquidity_math::add_delta;

#[test]
fn positive_liquidity_delta() {
    let x: u64 = 1;
    let y: i64 = 2;
    assert_eq!(add_delta(x, y).unwrap(), 3);
}

#[test]
fn negative_liquidity_delta() {
    let x: u64 = 2;
    let y: i64 = -1;
    assert_eq!(add_delta(x, y).unwrap(), 1);
}

#[test]
fn liquidity_delta_overflow_is_la() {
    assert_eq!(add_delta(u64::MAX, 1), Err(ErrorCode::LA));
}

#[test]
fn liquidity_delta_underflow_is_ls() {
    assert_eq!(add_delta(u64::MIN, -1), Err(ErrorCode::LS));
    assert_eq!(add_delta(u64::MAX, i64::MIN), Ok(u64::MAX - (1u64 << 63)));
    assert_eq!(add_delta(0, i64::MIN), Err(ErrorCode::LS));
}

#[test]
fn add_delta_then_negation_gives_back_liquidity() {
    let x: u64 = 1_000_000;
    let y: i64 = 12_345;
    let z = add_delta(x, y).unwrap();
    assert_eq!(add_delta(z, -y), Ok(x));
    let z = add_delta(x, -y).unwrap();
    assert_eq!(add_delta(z, y), Ok(x));
}
