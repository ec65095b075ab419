use bino::keyboard::{KeyMap, KEY_PAD};

#[test]
fn pad_value_is_zero() {
    assert_eq!(KEY_PAD, 0);
}

#[test]
fn new_keyboard_has_no_key() {
    assert_eq!(KeyMap::new().keys, [0u8; 16]);
}

#[test]
fn update_takes_the_keys_in_order_and_pads() {
    let mut keys = KeyMap { keys: [0xEE; 16] };
    keys.update(&Some(vec![10, 28, 3]));
    assert_eq!(keys.keys, [10, 28, 3, 0, 0, 0, 0, 0, 0, 0, 0, 0, 0, 0, 0, 0]);
}

#[test]
fn update_with_no_key_pressed_clears_every_slot() {
    let mut keys = KeyMap { keys: [0xEE; 16] };
    keys.update(&Some(vec![]));
    assert_eq!(keys.keys, [0u8; 16]);
}

#[test]
fn update_with_a_full_snapshot_fills_every_slot() {
    let snapshot: Vec<u8> = (1..=16).collect();
    let mut keys = KeyMap::new();
    keys.update(&Some(snapshot));
    assert_eq!(keys.keys, [1, 2, 3, 4, 5, 6, 7, 8, 9, 10, 11, 12, 13, 14, 15, 16]);
}

#[test]
fn update_with_more_keys_than_slots_takes_the_first() {
    let snapshot: Vec<u8> = (100..120).collect();
    let mut keys = KeyMap::new();
    keys.update(&Some(snapshot));
    assert_eq!(
        keys.keys,
        [100, 101, 102, 103, 104, 105, 106, 107, 108, 109, 110, 111, 112, 113, 114, 115]
    );
}

#[test]
fn update_without_a_snapshot_keeps_the_keys() {
    let mut keys = KeyMap { keys: [5; 16] };
    keys.update(&None);
    assert_eq!(keys.keys, [5u8; 16]);
}

#[test]
fn update_forgets_the_keys_of_the_cycle_before() {
    let mut keys = KeyMap::new();
    keys.update(&Some(vec![1, 2, 3, 4]));
    keys.update(&Some(vec![9]));
    assert_eq!(keys.keys, [9, 0, 0, 0, 0, 0, 0, 0, 0, 0, 0, 0, 0, 0, 0, 0]);
}
