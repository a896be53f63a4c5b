use argon::keys::{browser_code_to_keysym, str_equal};

#[test]
fn letters_map_to_lowercase_keysyms() {
    assert_eq!(browser_code_to_keysym("KeyA"), Some(0x61));
    assert_eq!(browser_code_to_keysym("KeyM"), Some(0x6d));
    assert_eq!(browser_code_to_keysym("KeyZ"), Some(0x7a));
}

#[test]
fn digits_map_to_ascii_keysyms() {
    assert_eq!(browser_code_to_keysym("Digit0"), Some(0x30));
    assert_eq!(browser_code_to_keysym("Digit9"), Some(0x39));
}

#[test]
fn named_keys_map_to_x11_keysyms() {
    assert_eq!(browser_code_to_keysym("Space"), Some(0x20));
    assert_eq!(browser_code_to_keysym("Enter"), Some(0xff0d));
    assert_eq!(browser_code_to_keysym("Backspace"), Some(0xff08));
    assert_eq!(browser_code_to_keysym("Tab"), Some(0xff09));
    assert_eq!(browser_code_to_keysym("Escape"), Some(0xff1b));
    assert_eq!(browser_code_to_keysym("Delete"), Some(0xffff));
    assert_eq!(browser_code_to_keysym("ArrowUp"), Some(0xff52));
    assert_eq!(browser_code_to_keysym("ArrowDown"), Some(0xff54));
    assert_eq!(browser_code_to_keysym("ArrowLeft"), Some(0xff51));
    assert_eq!(browser_code_to_keysym("ArrowRight"), Some(0xff53));
    assert_eq!(browser_code_to_keysym("ShiftLeft"), Some(0xffe1));
    assert_eq!(browser_code_to_keysym("ShiftRight"), Some(0xffe2));
    assert_eq!(browser_code_to_keysym("ControlLeft"), Some(0xffe3));
    assert_eq!(browser_code_to_keysym("ControlRight"), Some(0xffe4));
    assert_eq!(browser_code_to_keysym("AltLeft"), Some(0xffe9));
    assert_eq!(browser_code_to_keysym("AltRight"), Some(0xffea));
    assert_eq!(browser_code_to_keysym("F1"), Some(0xffbe));
    assert_eq!(browser_code_to_keysym("F10"), Some(0xffc7));
    assert_eq!(browser_code_to_keysym("F12"), Some(0xffc9));
    assert_eq!(browser_code_to_keysym("Minus"), Some(0x2d));
    assert_eq!(browser_code_to_keysym("Equal"), Some(0x3d));
    assert_eq!(browser_code_to_keysym("BracketLeft"), Some(0x5b));
    assert_eq!(browser_code_to_keysym("BracketRight"), Some(0x5d));
    assert_eq!(browser_code_to_keysym("Backslash"), Some(0x5c));
    assert_eq!(browser_code_to_keysym("Semicolon"), Some(0x3b));
    assert_eq!(browser_code_to_keysym("Quote"), Some(0x27));
    assert_eq!(browser_code_to_keysym("Comma"), Some(0x2c));
    assert_eq!(browser_code_to_keysym("Period"), Some(0x2e));
    assert_eq!(browser_code_to_keysym("Slash"), Some(0x2f));
    assert_eq!(browser_code_to_keysym("Backquote"), Some(0x60));
}

#[test]
fn unknown_codes_have_no_keysym() {
    assert_eq!(browser_code_to_keysym(""), None);
    assert_eq!(browser_code_to_keysym("keya"), None);
    assert_eq!(browser_code_to_keysym("KeyAA"), None);
    assert_eq!(browser_code_to_keysym("F13"), None);
    assert_eq!(browser_code_to_keysym("Numpad1"), None);
    assert_eq!(browser_code_to_keysym("Kéy"), None);
}

#[test]
fn every_table_keysym_is_nonzero() {
    for code in ["KeyA", "Digit0", "Space", "Delete", "F1", "Quote"] {
        assert_ne!(browser_code_to_keysym(code), Some(0));
    }
}

#[test]
fn string_equality_is_exact() {
    assert!(str_equal("", ""));
    assert!(str_equal("Tab", "Tab"));
    assert!(!str_equal("Tab", "Ta"));
    assert!(!str_equal("é", "e"));
}
