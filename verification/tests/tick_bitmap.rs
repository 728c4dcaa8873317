use cyclos_core::states::tick_bitmap::{position, TickBitmapState};

fn empty_bitmap(word_pos: i16) -> TickBitmapState {
    TickBitmapState { bump: 0, word_pos, word: [0, 0, 0, 0] }
}

#[test]
fn position_for_negative_tick() {
    let pos = position(-1);
    assert_eq!(pos.word_pos, -1);
    assert_eq!(pos.bit_pos, 255);
}

#[test]
fn position_for_positive_ticks() {
    let pos = position(256 * 3 + 7);
    assert_eq!(pos.word_pos, 3);
    assert_eq!(pos.bit_pos, 7);
    let pos = position(-257);
    assert_eq!(pos.word_pos, -2);
    assert_eq!(pos.bit_pos, 255);
}

#[test]
fn flip_tick_twice_restores_the_word() {
    let mut bitmap = empty_bitmap(0);
    bitmap.flip_tick(0);
    assert_eq!(bitmap.word, [1, 0, 0, 0]);
    bitmap.flip_tick(0);
    assert_eq!(bitmap.word, [0, 0, 0, 0]);

    bitmap.flip_tick(127);
    assert_eq!(bitmap.word, [0, 1u64 << 63, 0, 0]);
    bitmap.flip_tick(255);
    assert_eq!(bitmap.word, [0, 1u64 << 63, 0, 1u64 << 63]);
    bitmap.flip_tick(127);
    bitmap.flip_tick(255);
    assert_eq!(bitmap.word, [0, 0, 0, 0]);
}

#[test]
fn next_initialized_bit_to_the_left() {
    let mut bitmap = empty_bitmap(0);
    bitmap.flip_tick(10);
    bitmap.flip_tick(200);
    let next = bitmap.next_initialized_bit(150, true);
    assert!(next.initialized);
    assert_eq!(next.next, -140);
    let next = bitmap.next_initialized_bit(200, true);
    assert!(next.initialized);
    assert_eq!(next.next, 0);
    let next = bitmap.next_initialized_bit(9, true);
    assert!(!next.initialized);
    assert_eq!(next.next, -9);
}

#[test]
fn next_initialized_bit_to_the_right() {
    let mut bitmap = empty_bitmap(0);
    bitmap.flip_tick(10);
    bitmap.flip_tick(200);
    let next = bitmap.next_initialized_bit(11, false);
    assert!(next.initialized);
    assert_eq!(next.next, 1 + 189);
    let next = bitmap.next_initialized_bit(10, false);
    assert!(next.initialized);
    assert_eq!(next.next, 1);
    let next = bitmap.next_initialized_bit(201, false);
    assert!(!next.initialized);
    assert_eq!(next.next, 1 + 54);
}
