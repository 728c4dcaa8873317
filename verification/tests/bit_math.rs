use cyclos_core::libraries::bit_math::{least_significant_bit, most_significant_bit};

#[test]
fn test_msb_at_powers_of_two() {
    for i in 0..63 {
        assert_eq!(most_significant_bit(u64::pow(2, i)), i as u8);
    }
}

#[test]
fn test_msb_for_1() {
    assert_eq!(most_significant_bit(1), 0);
}

#[test]
fn test_msb_for_2() {
    assert_eq!(most_significant_bit(2), 1);
}

#[test]
fn test_msb_for_max() {
    assert_eq!(most_significant_bit(u64::MAX.checked_sub(1u64).unwrap()), 63);
}

#[test]
fn bit_math_within_limits() {
    for i in 0..63 {
        let input = u64::pow(2, i);
        let msb = most_significant_bit(input);
        assert!(input >= u64::pow(2, msb.into()));
    }
    for i in 0..63 {
        let input = u64::pow(2, i);
        let lsb = least_significant_bit(input);
        assert!(input & u64::pow(2, lsb.into()) != 0);
    }
}

#[test]
fn test_at_powers_of_two() {
    for i in 0..63 {
        assert_eq!(least_significant_bit(u64::pow(2, i)), i as u8);
    }
}

#[test]
fn test_for_1() {
    assert_eq!(least_significant_bit(1), 0);
}

#[test]
fn test_for_2() {
    assert_eq!(least_significant_bit(2), 1);
}

#[test]
fn test_for_max() {
    assert_eq!(least_significant_bit(u64::MAX.checked_sub(1u64).unwrap()), 1);
}

#[test]
fn msb_is_floor_log2_on_mixed_bits() {
    // the most significant bit ignores the lower bits: floor(log2(x))
    assert_eq!(most_significant_bit(0b1011_0000), 7);
    assert_eq!(most_significant_bit(u64::MAX), 63);
    assert_eq!(most_significant_bit(3), 1);
    // the least significant bit is the lowest set bit
    assert_eq!(least_significant_bit(0b1011_0000), 4);
    assert_eq!(least_significant_bit(u64::MAX), 0);
    assert_eq!(least_significant_bit(1u64 << 63), 63);
}
