use cyclos_core::libraries::tick_math::{MAX_SQRT_RATIO, MIN_SQRT_RATIO};
use cyclos_core::swap_router::{
    amount_swapped_out, check_amount_out, check_deadline, effective_sqrt_price_limit, ErrorCode,
};

#[test]
fn deadline_check() {
    assert_eq!(check_deadline(10, 10), Ok(()));
    assert_eq!(check_deadline(11, 10), Err(ErrorCode::TransactionTooOld));
}

#[test]
fn default_price_limits() {
    assert_eq!(effective_sqrt_price_limit(true, 0), MIN_SQRT_RATIO + 1);
    assert_eq!(effective_sqrt_price_limit(false, 0), MAX_SQRT_RATIO - 1);
    assert_eq!(effective_sqrt_price_limit(true, 12345), 12345);
}

#[test]
fn slippage_check_on_amount_out() {
    assert_eq!(amount_swapped_out(100, 40), 60);
    assert_eq!(check_amount_out(60, 60), Ok(()));
    assert_eq!(check_amount_out(59, 60), Err(ErrorCode::TooLittleReceived));
}
