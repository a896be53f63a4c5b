//! Browser `KeyboardEvent.code` names and the X11 keysyms they stand for.
use vstd::prelude::*;
use vstd::string::StringSliceAdditionalSpecFns;

use crate::server::{decimal, digit_char};

verus! {

/// Equal byte encodings come from equal character sequences.
proof fn lemma_bytes_determine_chars(a: &str, b: &str)
    requires
        a.spec_bytes() == b.spec_bytes(),
    ensures
        a@ == b@,
{
    vstd::utf8::encode_utf8_decode_utf8(a@);
    vstd::utf8::encode_utf8_decode_utf8(b@);
}

/// Compares two string slices character by character, through their bytes.
pub fn str_equal(a: &str, b: &str) -> (equal: bool)
    ensures
        equal == (a@ == b@),
{
    let x = a.as_bytes();
    let y = b.as_bytes();
    if x.len() != y.len() {
        proof {
            if a@ == b@ {
                assert(x@ == y@);
            }
        }
        return false;
    }
    let n = x.len();
    let mut i: usize = 0;
    while i < n
        invariant
            x@ == a.spec_bytes(),
            y@ == b.spec_bytes(),
            n == x@.len(),
            n == y@.len(),
            i <= n,
            forall|k: int| 0 <= k < i ==> x@[k] == y@[k],
        decreases n - i,
    {
        if x[i] != y[i] {
            proof {
                if a@ == b@ {
                    assert(x@ == y@);
                }
            }
            return false;
        }
        i = i + 1;
    }
    proof {
        assert(x@ =~= y@);
        lemma_bytes_determine_chars(a, b);
    }
    true
}

/// The X11 keysym that a browser `KeyboardEvent.code` stands for, or `None`
/// for a code outside the table: letters give the lower-case keysym, digits
/// their ASCII keysym, and the named keys their X11 keysyms.
pub open spec fn spec_keysym(code: Seq<char>) -> Option<u32> {
    if code == "KeyA"@ {
        Some(0x0061)
    } else if code == "KeyB"@ {
        Some(0x0062)
    } else if code == "KeyC"@ {
        Some(0x0063)
    } else if code == "KeyD"@ {
        Some(0x0064)
    } else if code == "KeyE"@ {
        Some(0x0065)
    } else if code == "KeyF"@ {
        Some(0x0066)
    } else if code == "KeyG"@ {
        Some(0x0067)
    } else if code == "KeyH"@ {
        Some(0x0068)
    } else if code == "KeyI"@ {
        Some(0x0069)
    } else if code == "KeyJ"@ {
        Some(0x006a)
    } else if code == "KeyK"@ {
        Some(0x006b)
    } else if code == "KeyL"@ {
        Some(0x006c)
    } else if code == "KeyM"@ {
        Some(0x006d)
    } else if code == "KeyN"@ {
        Some(0x006e)
    } else if code == "KeyO"@ {
        Some(0x006f)
    } else if code == "KeyP"@ {
        Some(0x0070)
    } else if code == "KeyQ"@ {
        Some(0x0071)
    } else if code == "KeyR"@ {
        Some(0x0072)
    } else if code == "KeyS"@ {
        Some(0x0073)
    } else if code == "KeyT"@ {
        Some(0x0074)
    } else if code == "KeyU"@ {
        Some(0x0075)
    } else if code == "KeyV"@ {
        Some(0x0076)
    } else if code == "KeyW"@ {
        Some(0x0077)
    } else if code == "KeyX"@ {
        Some(0x0078)
    } else if code == "KeyY"@ {
        Some(0x0079)
    } else if code == "KeyZ"@ {
        Some(0x007a)
    } else if code == "Digit0"@ {
        Some(0x0030)
    } else if code == "Digit1"@ {
        Some(0x0031)
    } else if code == "Digit2"@ {
        Some(0x0032)
    } else if code == "Digit3"@ {
        Some(0x0033)
    } else if code == "Digit4"@ {
        Some(0x0034)
    } else if code == "Digit5"@ {
        Some(0x0035)
    } else if code == "Digit6"@ {
        Some(0x0036)
    } else if code == "Digit7"@ {
        Some(0x0037)
    } else if code == "Digit8"@ {
        Some(0x0038)
    } else if code == "Digit9"@ {
        Some(0x0039)
    } else if code == "Space"@ {
        Some(0x0020)
    } else if code == "Enter"@ {
        Some(0xff0d)
    } else if code == "Backspace"@ {
        Some(0xff08)
    } else if code == "Tab"@ {
        Some(0xff09)
    } else if code == "Escape"@ {
        Some(0xff1b)
    } else if code == "Delete"@ {
        Some(0xffff)
    } else if code == "ArrowUp"@ {
        Some(0xff52)
    } else if code == "ArrowDown"@ {
        Some(0xff54)
    } else if code == "ArrowLeft"@ {
        Some(0xff51)
    } else if code == "ArrowRight"@ {
        Some(0xff53)
    } else if code == "ShiftLeft"@ {
        Some(0xffe1)
    } else if code == "ShiftRight"@ {
        Some(0xffe2)
    } else if code == "ControlLeft"@ {
        Some(0xffe3)
    } else if code == "ControlRight"@ {
        Some(0xffe4)
    } else if code == "AltLeft"@ {
        Some(0xffe9)
    } else if code == "AltRight"@ {
        Some(0xffea)
    } else if code == "F1"@ {
        Some(0xffbe)
    } else if code == "F2"@ {
        Some(0xffbf)
    } else if code == "F3"@ {
        Some(0xffc0)
    } else if code == "F4"@ {
        Some(0xffc1)
    } else if code == "F5"@ {
        Some(0xffc2)
    } else if code == "F6"@ {
        Some(0xffc3)
    } else if code == "F7"@ {
        Some(0xffc4)
    } else if code == "F8"@ {
        Some(0xffc5)
    } else if code == "F9"@ {
        Some(0xffc6)
    } else if code == "F10"@ {
        Some(0xffc7)
    } else if code == "F11"@ {
        Some(0xffc8)
    } else if code == "F12"@ {
        Some(0xffc9)
    } else if code == "Minus"@ {
        Some(0x002d)
    } else if code == "Equal"@ {
        Some(0x003d)
    } else if code == "BracketLeft"@ {
        Some(0x005b)
    } else if code == "BracketRight"@ {
        Some(0x005d)
    } else if code == "Backslash"@ {
        Some(0x005c)
    } else if code == "Semicolon"@ {
        Some(0x003b)
    } else if code == "Quote"@ {
        Some(0x0027)
    } else if code == "Comma"@ {
        Some(0x002c)
    } else if code == "Period"@ {
        Some(0x002e)
    } else if code == "Slash"@ {
        Some(0x002f)
    } else if code == "Backquote"@ {
        Some(0x0060)
    } else {
        None
    }
}

/// Maps a browser `KeyboardEvent.code` string to an X11 keysym value.
pub fn browser_code_to_keysym(code: &str) -> (keysym: Option<u32>)
    ensures
        keysym == spec_keysym(code@),
{
    if str_equal(code, "KeyA") {
        Some(0x0061)
    } else if str_equal(code, "KeyB") {
        Some(0x0062)
    } else if str_equal(code, "KeyC") {
        Some(0x0063)
    } else if str_equal(code, "KeyD") {
        Some(0x0064)
    } else if str_equal(code, "KeyE") {
        Some(0x0065)
    } else if str_equal(code, "KeyF") {
        Some(0x0066)
    } else if str_equal(code, "KeyG") {
        Some(0x0067)
    } else if str_equal(code, "KeyH") {
        Some(0x0068)
    } else if str_equal(code, "KeyI") {
        Some(0x0069)
    } else if str_equal(code, "KeyJ") {
        Some(0x006a)
    } else if str_equal(code, "KeyK") {
        Some(0x006b)
    } else if str_equal(code, "KeyL") {
        Some(0x006c)
    } else if str_equal(code, "KeyM") {
        Some(0x006d)
    } else if str_equal(code, "KeyN") {
        Some(0x006e)
    } else if str_equal(code, "KeyO") {
        Some(0x006f)
    } else if str_equal(code, "KeyP") {
        Some(0x0070)
    } else if str_equal(code, "KeyQ") {
        Some(0x0071)
    } else if str_equal(code, "KeyR") {
        Some(0x0072)
    } else if str_equal(code, "KeyS") {
        Some(0x0073)
    } else if str_equal(code, "KeyT") {
        Some(0x0074)
    } else if str_equal(code, "KeyU") {
        Some(0x0075)
    } else if str_equal(code, "KeyV") {
        Some(0x0076)
    } else if str_equal(code, "KeyW") {
        Some(0x0077)
    } else if str_equal(code, "KeyX") {
        Some(0x0078)
    } else if str_equal(code, "KeyY") {
        Some(0x0079)
    } else if str_equal(code, "KeyZ") {
        Some(0x007a)
    } else if str_equal(code, "Digit0") {
        Some(0x0030)
    } else if str_equal(code, "Digit1") {
        Some(0x0031)
    } else if str_equal(code, "Digit2") {
        Some(0x0032)
    } else if str_equal(code, "Digit3") {
        Some(0x0033)
    } else if str_equal(code, "Digit4") {
        Some(0x0034)
    } else if str_equal(code, "Digit5") {
        Some(0x0035)
    } else if str_equal(code, "Digit6") {
        Some(0x0036)
    } else if str_equal(code, "Digit7") {
        Some(0x0037)
    } else if str_equal(code, "Digit8") {
        Some(0x0038)
    } else if str_equal(code, "Digit9") {
        Some(0x0039)
    } else if str_equal(code, "Space") {
        Some(0x0020)
    } else if str_equal(code, "Enter") {
        Some(0xff0d)
    } else if str_equal(code, "Backspace") {
        Some(0xff08)
    } else if str_equal(code, "Tab") {
        Some(0xff09)
    } else if str_equal(code, "Escape") {
        Some(0xff1b)
    } else if str_equal(code, "Delete") {
        Some(0xffff)
    } else if str_equal(code, "ArrowUp") {
        Some(0xff52)
    } else if str_equal(code, "ArrowDown") {
        Some(0xff54)
    } else if str_equal(code, "ArrowLeft") {
        Some(0xff51)
    } else if str_equal(code, "ArrowRight") {
        Some(0xff53)
    } else if str_equal(code, "ShiftLeft") {
        Some(0xffe1)
    } else if str_equal(code, "ShiftRight") {
        Some(0xffe2)
    } else if str_equal(code, "ControlLeft") {
        Some(0xffe3)
    } else if str_equal(code, "ControlRight") {
        Some(0xffe4)
    } else if str_equal(code, "AltLeft") {
        Some(0xffe9)
    } else if str_equal(code, "AltRight") {
        Some(0xffea)
    } else if str_equal(code, "F1") {
        Some(0xffbe)
    } else if str_equal(code, "F2") {
        Some(0xffbf)
    } else if str_equal(code, "F3") {
        Some(0xffc0)
    } else if str_equal(code, "F4") {
        Some(0xffc1)
    } else if str_equal(code, "F5") {
        Some(0xffc2)
    } else if str_equal(code, "F6") {
        Some(0xffc3)
    } else if str_equal(code, "F7") {
        Some(0xffc4)
    } else if str_equal(code, "F8") {
        Some(0xffc5)
    } else if str_equal(code, "F9") {
        Some(0xffc6)
    } else if str_equal(code, "F10") {
        Some(0xffc7)
    } else if str_equal(code, "F11") {
        Some(0xffc8)
    } else if str_equal(code, "F12") {
        Some(0xffc9)
    } else if str_equal(code, "Minus") {
        Some(0x002d)
    } else if str_equal(code, "Equal") {
        Some(0x003d)
    } else if str_equal(code, "BracketLeft") {
        Some(0x005b)
    } else if str_equal(code, "BracketRight") {
        Some(0x005d)
    } else if str_equal(code, "Backslash") {
        Some(0x005c)
    } else if str_equal(code, "Semicolon") {
        Some(0x003b)
    } else if str_equal(code, "Quote") {
        Some(0x0027)
    } else if str_equal(code, "Comma") {
        Some(0x002c)
    } else if str_equal(code, "Period") {
        Some(0x002e)
    } else if str_equal(code, "Slash") {
        Some(0x002f)
    } else if str_equal(code, "Backquote") {
        Some(0x0060)
    } else {
        None
    }
}


/// The table's letter rows: the code `Key<C>`, for an upper-case ASCII letter `C`,
/// stands for the keysym of the lower-case letter, whose value is its ASCII code.
pub proof fn lemma_letter_keysyms(c: char)
    requires
        'A' <= c <= 'Z',
    ensures
        spec_keysym(seq!['K', 'e', 'y', c]) == Some((c as u32 + 0x20) as u32),
{
    let code = seq!['K', 'e', 'y', c];
    assert(code.len() == 4 && code[3] == c);
    reveal_strlit("KeyA");
    reveal_strlit("KeyB");
    reveal_strlit("KeyC");
    reveal_strlit("KeyD");
    reveal_strlit("KeyE");
    reveal_strlit("KeyF");
    reveal_strlit("KeyG");
    reveal_strlit("KeyH");
    reveal_strlit("KeyI");
    reveal_strlit("KeyJ");
    reveal_strlit("KeyK");
    reveal_strlit("KeyL");
    reveal_strlit("KeyM");
    reveal_strlit("KeyN");
    reveal_strlit("KeyO");
    reveal_strlit("KeyP");
    reveal_strlit("KeyQ");
    reveal_strlit("KeyR");
    reveal_strlit("KeyS");
    reveal_strlit("KeyT");
    reveal_strlit("KeyU");
    reveal_strlit("KeyV");
    reveal_strlit("KeyW");
    reveal_strlit("KeyX");
    reveal_strlit("KeyY");
    reveal_strlit("KeyZ");
    if c == 'A' {
        assert(code =~= "KeyA"@);
    } else if c == 'B' {
        assert(code =~= "KeyB"@);
    } else if c == 'C' {
        assert(code =~= "KeyC"@);
    } else if c == 'D' {
        assert(code =~= "KeyD"@);
    } else if c == 'E' {
        assert(code =~= "KeyE"@);
    } else if c == 'F' {
        assert(code =~= "KeyF"@);
    } else if c == 'G' {
        assert(code =~= "KeyG"@);
    } else if c == 'H' {
        assert(code =~= "KeyH"@);
    } else if c == 'I' {
        assert(code =~= "KeyI"@);
    } else if c == 'J' {
        assert(code =~= "KeyJ"@);
    } else if c == 'K' {
        assert(code =~= "KeyK"@);
    } else if c == 'L' {
        assert(code =~= "KeyL"@);
    } else if c == 'M' {
        assert(code =~= "KeyM"@);
    } else if c == 'N' {
        assert(code =~= "KeyN"@);
    } else if c == 'O' {
        assert(code =~= "KeyO"@);
    } else if c == 'P' {
        assert(code =~= "KeyP"@);
    } else if c == 'Q' {
        assert(code =~= "KeyQ"@);
    } else if c == 'R' {
        assert(code =~= "KeyR"@);
    } else if c == 'S' {
        assert(code =~= "KeyS"@);
    } else if c == 'T' {
        assert(code =~= "KeyT"@);
    } else if c == 'U' {
        assert(code =~= "KeyU"@);
    } else if c == 'V' {
        assert(code =~= "KeyV"@);
    } else if c == 'W' {
        assert(code =~= "KeyW"@);
    } else if c == 'X' {
        assert(code =~= "KeyX"@);
    } else if c == 'Y' {
        assert(code =~= "KeyY"@);
    } else if c == 'Z' {
        assert(code =~= "KeyZ"@);
    }
}

/// The table's digit rows: the code `Digit<d>`, for an ASCII digit `d`, stands for
/// the keysym whose value is the digit's ASCII code.
pub proof fn lemma_digit_keysyms(d: char)
    requires
        '0' <= d <= '9',
    ensures
        spec_keysym(seq!['D', 'i', 'g', 'i', 't', d]) == Some(d as u32),
{
    let code = seq!['D', 'i', 'g', 'i', 't', d];
    assert(code.len() == 6 && code[5] == d);
    reveal_strlit("KeyA");
    reveal_strlit("KeyB");
    reveal_strlit("KeyC");
    reveal_strlit("KeyD");
    reveal_strlit("KeyE");
    reveal_strlit("KeyF");
    reveal_strlit("KeyG");
    reveal_strlit("KeyH");
    reveal_strlit("KeyI");
    reveal_strlit("KeyJ");
    reveal_strlit("KeyK");
    reveal_strlit("KeyL");
    reveal_strlit("KeyM");
    reveal_strlit("KeyN");
    reveal_strlit("KeyO");
    reveal_strlit("KeyP");
    reveal_strlit("KeyQ");
    reveal_strlit("KeyR");
    reveal_strlit("KeyS");
    reveal_strlit("KeyT");
    reveal_strlit("KeyU");
    reveal_strlit("KeyV");
    reveal_strlit("KeyW");
    reveal_strlit("KeyX");
    reveal_strlit("KeyY");
    reveal_strlit("KeyZ");
    reveal_strlit("Digit0");
    reveal_strlit("Digit1");
    reveal_strlit("Digit2");
    reveal_strlit("Digit3");
    reveal_strlit("Digit4");
    reveal_strlit("Digit5");
    reveal_strlit("Digit6");
    reveal_strlit("Digit7");
    reveal_strlit("Digit8");
    reveal_strlit("Digit9");
    if d == '0' {
        assert(code =~= "Digit0"@);
    } else if d == '1' {
        assert(code =~= "Digit1"@);
    } else if d == '2' {
        assert(code =~= "Digit2"@);
    } else if d == '3' {
        assert(code =~= "Digit3"@);
    } else if d == '4' {
        assert(code =~= "Digit4"@);
    } else if d == '5' {
        assert(code =~= "Digit5"@);
    } else if d == '6' {
        assert(code =~= "Digit6"@);
    } else if d == '7' {
        assert(code =~= "Digit7"@);
    } else if d == '8' {
        assert(code =~= "Digit8"@);
    } else if d == '9' {
        assert(code =~= "Digit9"@);
    }
}

/// Every keysym in the table is non-zero, so a mapped code can always be found
/// in a keyboard map, which never holds the keysym zero.
pub proof fn lemma_keysyms_nonzero(code: Seq<char>)
    ensures
        spec_keysym(code) matches Some(k) ==> k != 0,
{
}

/// The single-digit function-key rows: the code `F<d>`, for a digit `d` from 1
/// to 9, stands for the keysym of function key `d`.
#[verifier::rlimit(50)]
proof fn lemma_one_digit_function_keys(d: char)
    requires
        '1' <= d <= '9',
    ensures
        spec_keysym(seq!['F', d]) == Some((0xffbe + (d as u32 - '1' as u32)) as u32),
{
    let code = seq!['F', d];
    assert(code.len() == 2 && code[1] == d);
    reveal_strlit("KeyA");
    reveal_strlit("KeyB");
    reveal_strlit("KeyC");
    reveal_strlit("KeyD");
    reveal_strlit("KeyE");
    reveal_strlit("KeyF");
    reveal_strlit("KeyG");
    reveal_strlit("KeyH");
    reveal_strlit("KeyI");
    reveal_strlit("KeyJ");
    reveal_strlit("KeyK");
    reveal_strlit("KeyL");
    reveal_strlit("KeyM");
    reveal_strlit("KeyN");
    reveal_strlit("KeyO");
    reveal_strlit("KeyP");
    reveal_strlit("KeyQ");
    reveal_strlit("KeyR");
    reveal_strlit("KeyS");
    reveal_strlit("KeyT");
    reveal_strlit("KeyU");
    reveal_strlit("KeyV");
    reveal_strlit("KeyW");
    reveal_strlit("KeyX");
    reveal_strlit("KeyY");
    reveal_strlit("KeyZ");
    reveal_strlit("Digit0");
    reveal_strlit("Digit1");
    reveal_strlit("Digit2");
    reveal_strlit("Digit3");
    reveal_strlit("Digit4");
    reveal_strlit("Digit5");
    reveal_strlit("Digit6");
    reveal_strlit("Digit7");
    reveal_strlit("Digit8");
    reveal_strlit("Digit9");
    reveal_strlit("Space");
    reveal_strlit("Enter");
    reveal_strlit("Backspace");
    reveal_strlit("Tab");
    reveal_strlit("Escape");
    reveal_strlit("Delete");
    reveal_strlit("ArrowUp");
    reveal_strlit("ArrowDown");
    reveal_strlit("ArrowLeft");
    reveal_strlit("ArrowRight");
    reveal_strlit("ShiftLeft");
    reveal_strlit("ShiftRight");
    reveal_strlit("ControlLeft");
    reveal_strlit("ControlRight");
    reveal_strlit("AltLeft");
    reveal_strlit("AltRight");
    reveal_strlit("F1");
    reveal_strlit("F2");
    reveal_strlit("F3");
    reveal_strlit("F4");
    reveal_strlit("F5");
    reveal_strlit("F6");
    reveal_strlit("F7");
    reveal_strlit("F8");
    reveal_strlit("F9");
    if d == '1' {
        assert(code =~= "F1"@);
    } else if d == '2' {
        assert(code =~= "F2"@);
    } else if d == '3' {
        assert(code =~= "F3"@);
    } else if d == '4' {
        assert(code =~= "F4"@);
    } else if d == '5' {
        assert(code =~= "F5"@);
    } else if d == '6' {
        assert(code =~= "F6"@);
    } else if d == '7' {
        assert(code =~= "F7"@);
    } else if d == '8' {
        assert(code =~= "F8"@);
    } else if d == '9' {
        assert(code =~= "F9"@);
    }
}

/// The two-digit function-key rows: the code `F1<d>`, for a digit `d` from 0 to
/// 2, stands for the keysym of function key `10 + d`.
#[verifier::rlimit(50)]
proof fn lemma_two_digit_function_keys(d: char)
    requires
        '0' <= d <= '2',
    ensures
        spec_keysym(seq!['F', '1', d]) == Some((0xffc7 + (d as u32 - '0' as u32)) as u32),
{
    let code = seq!['F', '1', d];
    assert(code.len() == 3 && code[2] == d);
    reveal_strlit("KeyA");
    reveal_strlit("KeyB");
    reveal_strlit("KeyC");
    reveal_strlit("KeyD");
    reveal_strlit("KeyE");
    reveal_strlit("KeyF");
    reveal_strlit("KeyG");
    reveal_strlit("KeyH");
    reveal_strlit("KeyI");
    reveal_strlit("KeyJ");
    reveal_strlit("KeyK");
    reveal_strlit("KeyL");
    reveal_strlit("KeyM");
    reveal_strlit("KeyN");
    reveal_strlit("KeyO");
    reveal_strlit("KeyP");
    reveal_strlit("KeyQ");
    reveal_strlit("KeyR");
    reveal_strlit("KeyS");
    reveal_strlit("KeyT");
    reveal_strlit("KeyU");
    reveal_strlit("KeyV");
    reveal_strlit("KeyW");
    reveal_strlit("KeyX");
    reveal_strlit("KeyY");
    reveal_strlit("KeyZ");
    reveal_strlit("Digit0");
    reveal_strlit("Digit1");
    reveal_strlit("Digit2");
    reveal_strlit("Digit3");
    reveal_strlit("Digit4");
    reveal_strlit("Digit5");
    reveal_strlit("Digit6");
    reveal_strlit("Digit7");
    reveal_strlit("Digit8");
    reveal_strlit("Digit9");
    reveal_strlit("Space");
    reveal_strlit("Enter");
    reveal_strlit("Backspace");
    reveal_strlit("Tab");
    reveal_strlit("Escape");
    reveal_strlit("Delete");
    reveal_strlit("ArrowUp");
    reveal_strlit("ArrowDown");
    reveal_strlit("ArrowLeft");
    reveal_strlit("ArrowRight");
    reveal_strlit("ShiftLeft");
    reveal_strlit("ShiftRight");
    reveal_strlit("ControlLeft");
    reveal_strlit("ControlRight");
    reveal_strlit("AltLeft");
    reveal_strlit("AltRight");
    reveal_strlit("F1");
    reveal_strlit("F2");
    reveal_strlit("F3");
    reveal_strlit("F4");
    reveal_strlit("F5");
    reveal_strlit("F6");
    reveal_strlit("F7");
    reveal_strlit("F8");
    reveal_strlit("F9");
    reveal_strlit("F10");
    reveal_strlit("F11");
    reveal_strlit("F12");
    if d == '0' {
        assert(code =~= "F10"@);
    } else if d == '1' {
        assert(code =~= "F11"@);
    } else if d == '2' {
        assert(code =~= "F12"@);
    }
}

/// The function-key rows: the code `F<n>`, for `n` from 1 to 12 written in
/// decimal, stands for the keysym of function key `n`, the keysyms of F1 to F12
/// being consecutive from `0xffbe`.
pub proof fn lemma_function_keysyms(n: nat)
    requires
        1 <= n <= 12,
    ensures
        spec_keysym(seq!['F'] + decimal(n)) == Some((0xffbe + n - 1) as u32),
{
    if n < 10 {
        assert(decimal(n) == seq![digit_char(n)]);
        assert(seq!['F'] + decimal(n) =~= seq!['F', digit_char(n)]);
        lemma_one_digit_function_keys(digit_char(n));
    } else {
        let m = (n - 10) as nat;
        assert(decimal(n) == decimal(1).push(digit_char(m)));
        assert(decimal(1) == seq![digit_char(1)]);
        assert(seq!['F'] + decimal(n) =~= seq!['F', '1', digit_char(m)]);
        lemma_two_digit_function_keys(digit_char(m));
    }
}

} // verus!
