//! The names under which Linux key codes are stored.

use crate::format::{append_decimal, decimal};
use vstd::prelude::*;

verus! {

/// The name of a Linux input key code, when it has one.
pub open spec fn key_label(code: u32) -> Option<Seq<char>> {
    match code {
        1 => Some("Escape"@),
        2 => Some("1"@),
        3 => Some("2"@),
        4 => Some("3"@),
        5 => Some("4"@),
        6 => Some("5"@),
        7 => Some("6"@),
        8 => Some("7"@),
        9 => Some("8"@),
        10 => Some("9"@),
        11 => Some("0"@),
        12 => Some("-"@),
        13 => Some("="@),
        14 => Some("Backspace"@),
        15 => Some("Tab"@),
        16 => Some("Q"@),
        17 => Some("W"@),
        18 => Some("E"@),
        19 => Some("R"@),
        20 => Some("T"@),
        21 => Some("Y"@),
        22 => Some("U"@),
        23 => Some("I"@),
        24 => Some("O"@),
        25 => Some("P"@),
        26 => Some("["@),
        27 => Some("]"@),
        28 => Some("Enter"@),
        29 => Some("LCtrl"@),
        30 => Some("A"@),
        31 => Some("S"@),
        32 => Some("D"@),
        33 => Some("F"@),
        34 => Some("G"@),
        35 => Some("H"@),
        36 => Some("J"@),
        37 => Some("K"@),
        38 => Some("L"@),
        39 => Some(";"@),
        40 => Some("'"@),
        41 => Some("`"@),
        42 => Some("LShift"@),
        43 => Some("\\"@),
        44 => Some("Z"@),
        45 => Some("X"@),
        46 => Some("C"@),
        47 => Some("V"@),
        48 => Some("B"@),
        49 => Some("N"@),
        50 => Some("M"@),
        51 => Some(","@),
        52 => Some("."@),
        53 => Some("/"@),
        54 => Some("RShift"@),
        55 => Some("NumMultiply"@),
        56 => Some("LAlt"@),
        57 => Some("Space"@),
        58 => Some("CapsLock"@),
        59 => Some("F1"@),
        60 => Some("F2"@),
        61 => Some("F3"@),
        62 => Some("F4"@),
        63 => Some("F5"@),
        64 => Some("F6"@),
        65 => Some("F7"@),
        66 => Some("F8"@),
        67 => Some("F9"@),
        68 => Some("F10"@),
        69 => Some("NumLock"@),
        70 => Some("ScrollLock"@),
        71 => Some("Num7"@),
        72 => Some("Num8"@),
        73 => Some("Num9"@),
        74 => Some("NumMinus"@),
        75 => Some("Num4"@),
        76 => Some("Num5"@),
        77 => Some("Num6"@),
        78 => Some("NumPlus"@),
        79 => Some("Num1"@),
        80 => Some("Num2"@),
        81 => Some("Num3"@),
        82 => Some("Num0"@),
        83 => Some("NumDecimal"@),
        87 => Some("F11"@),
        88 => Some("F12"@),
        96 => Some("NumEnter"@),
        97 => Some("RCtrl"@),
        98 => Some("NumDivide"@),
        99 => Some("PrintScreen"@),
        100 => Some("RAlt"@),
        102 => Some("Home"@),
        103 => Some("Up"@),
        104 => Some("PageUp"@),
        105 => Some("Left"@),
        106 => Some("Right"@),
        107 => Some("End"@),
        108 => Some("Down"@),
        109 => Some("PageDown"@),
        110 => Some("Insert"@),
        111 => Some("Delete"@),
        119 => Some("Pause"@),
        125 => Some("Win"@),
        126 => Some("Win"@),
        127 => Some("Menu"@),
        _ => None,
    }
}

/// The name of a key code as stored: its label, or `Key` and the code
/// in decimal when it has none.
pub open spec fn key_name_spec(code: u32) -> Seq<char> {
    match key_label(code) {
        Some(l) => l,
        None => "Key"@ + decimal(code as nat),
    }
}

fn label_str(code: u32) -> (r: Option<&'static str>)
    ensures
        match r {
            Some(s) => key_label(code) == Some(s@),
            None => key_label(code) is None,
        },
{
    match code {
        1 => Some("Escape"),
        2 => Some("1"),
        3 => Some("2"),
        4 => Some("3"),
        5 => Some("4"),
        6 => Some("5"),
        7 => Some("6"),
        8 => Some("7"),
        9 => Some("8"),
        10 => Some("9"),
        11 => Some("0"),
        12 => Some("-"),
        13 => Some("="),
        14 => Some("Backspace"),
        15 => Some("Tab"),
        16 => Some("Q"),
        17 => Some("W"),
        18 => Some("E"),
        19 => Some("R"),
        20 => Some("T"),
        21 => Some("Y"),
        22 => Some("U"),
        23 => Some("I"),
        24 => Some("O"),
        25 => Some("P"),
        26 => Some("["),
        27 => Some("]"),
        28 => Some("Enter"),
        29 => Some("LCtrl"),
        30 => Some("A"),
        31 => Some("S"),
        32 => Some("D"),
        33 => Some("F"),
        34 => Some("G"),
        35 => Some("H"),
        36 => Some("J"),
        37 => Some("K"),
        38 => Some("L"),
        39 => Some(";"),
        40 => Some("'"),
        41 => Some("`"),
        42 => Some("LShift"),
        43 => Some("\\"),
        44 => Some("Z"),
        45 => Some("X"),
        46 => Some("C"),
        47 => Some("V"),
        48 => Some("B"),
        49 => Some("N"),
        50 => Some("M"),
        51 => Some(","),
        52 => Some("."),
        53 => Some("/"),
        54 => Some("RShift"),
        55 => Some("NumMultiply"),
        56 => Some("LAlt"),
        57 => Some("Space"),
        58 => Some("CapsLock"),
        59 => Some("F1"),
        60 => Some("F2"),
        61 => Some("F3"),
        62 => Some("F4"),
        63 => Some("F5"),
        64 => Some("F6"),
        65 => Some("F7"),
        66 => Some("F8"),
        67 => Some("F9"),
        68 => Some("F10"),
        69 => Some("NumLock"),
        70 => Some("ScrollLock"),
        71 => Some("Num7"),
        72 => Some("Num8"),
        73 => Some("Num9"),
        74 => Some("NumMinus"),
        75 => Some("Num4"),
        76 => Some("Num5"),
        77 => Some("Num6"),
        78 => Some("NumPlus"),
        79 => Some("Num1"),
        80 => Some("Num2"),
        81 => Some("Num3"),
        82 => Some("Num0"),
        83 => Some("NumDecimal"),
        87 => Some("F11"),
        88 => Some("F12"),
        96 => Some("NumEnter"),
        97 => Some("RCtrl"),
        98 => Some("NumDivide"),
        99 => Some("PrintScreen"),
        100 => Some("RAlt"),
        102 => Some("Home"),
        103 => Some("Up"),
        104 => Some("PageUp"),
        105 => Some("Left"),
        106 => Some("Right"),
        107 => Some("End"),
        108 => Some("Down"),
        109 => Some("PageDown"),
        110 => Some("Insert"),
        111 => Some("Delete"),
        119 => Some("Pause"),
        125 => Some("Win"),
        126 => Some("Win"),
        127 => Some("Menu"),
        _ => None,
    }
}

/// The name of a Linux key code. The extended flag plays no part on
/// Linux: the code alone tells left and right keys apart.
pub fn key_name(code: u32, extended: bool) -> (s: String)
    ensures
        s@ == key_name_spec(code),
{
    match label_str(code) {
        Some(l) => String::from_str(l),
        None => {
            let mut s = String::from_str("Key");
            append_decimal(&mut s, code);
            s
        },
    }
}

/// The letter and digit keys are named by their letter or digit, as the
/// Linux key codes lay them out row by row: codes 16 to 25 are Q W E R T
/// Y U I O P, codes 30 to 38 are A S D F G H J K L, codes 44 to 50 are
/// Z X C V B N M, and codes 2 to 11 are the digits 1 to 9 and 0. So no
/// two of these keys share a name.
pub proof fn lemma_letter_and_digit_names(code: u32)
    ensures
        16 <= code <= 25 ==> key_name_spec(code) == seq!["QWERTYUIOP"@[code - 16]],
        30 <= code <= 38 ==> key_name_spec(code) == seq!["ASDFGHJKL"@[code - 30]],
        44 <= code <= 50 ==> key_name_spec(code) == seq!["ZXCVBNM"@[code - 44]],
        2 <= code <= 11 ==> key_name_spec(code) == seq!["1234567890"@[code - 2]],
{
    reveal_strlit("QWERTYUIOP");
    reveal_strlit("ASDFGHJKL");
    reveal_strlit("ZXCVBNM");
    reveal_strlit("1234567890");
    reveal_strlit("Q");
    reveal_strlit("W");
    reveal_strlit("E");
    reveal_strlit("R");
    reveal_strlit("T");
    reveal_strlit("Y");
    reveal_strlit("U");
    reveal_strlit("I");
    reveal_strlit("O");
    reveal_strlit("P");
    reveal_strlit("A");
    reveal_strlit("S");
    reveal_strlit("D");
    reveal_strlit("F");
    reveal_strlit("G");
    reveal_strlit("H");
    reveal_strlit("J");
    reveal_strlit("K");
    reveal_strlit("L");
    reveal_strlit("Z");
    reveal_strlit("X");
    reveal_strlit("C");
    reveal_strlit("V");
    reveal_strlit("B");
    reveal_strlit("N");
    reveal_strlit("M");
    reveal_strlit("1");
    reveal_strlit("2");
    reveal_strlit("3");
    reveal_strlit("4");
    reveal_strlit("5");
    reveal_strlit("6");
    reveal_strlit("7");
    reveal_strlit("8");
    reveal_strlit("9");
    reveal_strlit("0");
}

/// The function keys are named F1 to F12: codes 59 to 68 are F1 to F10,
/// 87 and 88 are F11 and F12. Codes above 127 have no name here and are
/// stored as `Key` and the code in decimal.
pub proof fn lemma_function_and_unnamed_keys(code: u32)
    ensures
        59 <= code <= 68 ==> key_name_spec(code) == "F"@ + decimal((code - 58) as nat),
        code == 87 ==> key_name_spec(code) == "F"@ + decimal(11),
        code == 88 ==> key_name_spec(code) == "F"@ + decimal(12),
        code > 127 ==> key_name_spec(code) == "Key"@ + decimal(code as nat),
{
    reveal_strlit("F");
    reveal_strlit("F1");
    reveal_strlit("F2");
    reveal_strlit("F3");
    reveal_strlit("F4");
    reveal_strlit("F5");
    reveal_strlit("F6");
    reveal_strlit("F7");
    reveal_strlit("F8");
    reveal_strlit("F9");
    reveal_strlit("F10");
    reveal_strlit("F11");
    reveal_strlit("F12");
    reveal_with_fuel(decimal, 2);
    if 59 <= code <= 68 {
        assert(key_name_spec(code) =~= "F"@ + decimal((code - 58) as nat));
    }
    if code == 87 {
        assert(key_name_spec(code) =~= "F"@ + decimal(11));
    }
    if code == 88 {
        assert(key_name_spec(code) =~= "F"@ + decimal(12));
    }
}

} // verus!
