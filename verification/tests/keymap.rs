use argon::keymap::mapping_in_range;
use argon::keymap::{build_keysym_map, keycode_count};

#[test]
fn rows_are_keycodes_from_the_minimum() {
    let map = build_keysym_map(8, 2, &vec![0x61, 0x41, 0x62, 0x42, 0x63, 0x43]);
    assert_eq!(map.len(), 6);
    assert_eq!(map.get(&0x61), Some(&8));
    assert_eq!(map.get(&0x41), Some(&8));
    assert_eq!(map.get(&0x62), Some(&9));
    assert_eq!(map.get(&0x43), Some(&10));
}

#[test]
fn first_keycode_wins() {
    // keycode 10 and 12 both produce 0xffe1; the lower keycode is kept.
    let map = build_keysym_map(10, 1, &vec![0xffe1, 0x20, 0xffe1]);
    assert_eq!(map.get(&0xffe1), Some(&10));
    assert_eq!(map.get(&0x20), Some(&11));
    assert_eq!(map.len(), 2);
}

#[test]
fn zero_keysym_is_never_mapped() {
    let map = build_keysym_map(8, 4, &vec![0x61, 0, 0, 0, 0, 0, 0, 0x62]);
    assert_eq!(map.get(&0), None);
    assert_eq!(map.get(&0x61), Some(&8));
    assert_eq!(map.get(&0x62), Some(&9));
    assert_eq!(map.len(), 2);
}

#[test]
fn partial_last_row_and_top_keycode() {
    // Rows of 3 starting at keycode 253: the last (partial) row is keycode 255.
    let map = build_keysym_map(253, 3, &vec![1, 2, 3, 4, 5, 6, 7]);
    assert_eq!(map.get(&1), Some(&253));
    assert_eq!(map.get(&6), Some(&254));
    assert_eq!(map.get(&7), Some(&255));
}

#[test]
fn empty_mapping_gives_empty_map() {
    let map = build_keysym_map(8, 2, &vec![]);
    assert!(map.is_empty());
}

#[test]
fn keycode_count_includes_both_ends() {
    assert_eq!(keycode_count(8, 255), 248);
    assert_eq!(keycode_count(8, 8), 1);
}

#[test]
fn mapping_range_check() {
    assert!(!mapping_in_range(8, 0, 10));
    assert!(mapping_in_range(8, 2, 0));
    assert!(mapping_in_range(253, 3, 9));
    assert!(!mapping_in_range(253, 3, 10));
}
