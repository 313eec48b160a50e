use vstd::prelude::*;

verus! {

/// The keypad key that a keyboard symbol stands for.  The four by four block of
/// keys from `1` to `v` on a keyboard lies as the keypad does:
///
/// ```text
///   keyboard      keypad
///   1 2 3 4       1 2 3 C
///   q w e r       4 5 6 D
///   a s d f       7 8 9 E
///   z x c v       A 0 B F
/// ```
///
/// Any other symbol stands for no key.
pub open spec fn keypad_key(symbol: char) -> Option<u8> {
    if symbol == '1' {
        Some(0x1u8)
    } else if symbol == '2' {
        Some(0x2u8)
    } else if symbol == '3' {
        Some(0x3u8)
    } else if symbol == '4' {
        Some(0xCu8)
    } else if symbol == 'q' {
        Some(0x4u8)
    } else if symbol == 'w' {
        Some(0x5u8)
    } else if symbol == 'e' {
        Some(0x6u8)
    } else if symbol == 'r' {
        Some(0xDu8)
    } else if symbol == 'a' {
        Some(0x7u8)
    } else if symbol == 's' {
        Some(0x8u8)
    } else if symbol == 'd' {
        Some(0x9u8)
    } else if symbol == 'f' {
        Some(0xEu8)
    } else if symbol == 'z' {
        Some(0xAu8)
    } else if symbol == 'x' {
        Some(0x0u8)
    } else if symbol == 'c' {
        Some(0xBu8)
    } else if symbol == 'v' {
        Some(0xFu8)
    } else {
        None
    }
}

/// The keypad key that a keyboard symbol stands for, if it stands for one.
pub fn map_symbol_to_chip8_key(symbol: char) -> (key: Option<u8>)
    ensures
        key == keypad_key(symbol),
{
    match symbol {
        '1' => Some(0x1),
        '2' => Some(0x2),
        '3' => Some(0x3),
        '4' => Some(0xC),
        'q' => Some(0x4),
        'w' => Some(0x5),
        'e' => Some(0x6),
        'r' => Some(0xD),
        'a' => Some(0x7),
        's' => Some(0x8),
        'd' => Some(0x9),
        'f' => Some(0xE),
        'z' => Some(0xA),
        'x' => Some(0x0),
        'c' => Some(0xB),
        'v' => Some(0xF),
        _ => None,
    }
}

/// The keyboard symbol that stands for a keypad key.
pub open spec fn keyboard_symbol(key: u8) -> char
    recommends
        key < 16,
{
    seq!['x', '1', '2', '3', 'q', 'w', 'e', 'a', 's', 'd', 'z', 'c', '4', 'r', 'f', 'v'][key as int]
}

/// The layout reaches the whole keypad and nothing else: a symbol stands for a key of
/// the keypad or for none, no two symbols stand for the same key, and every key of
/// the keypad has its symbol.
pub proof fn law_keymap_is_one_to_one()
    ensures
        forall|symbol: char| #[trigger]
            keypad_key(symbol) matches Some(key) ==> key < 16 && keyboard_symbol(key) == symbol,
        forall|key: u8| key < 16 ==> keypad_key(#[trigger] keyboard_symbol(key)) == Some(key),
{
}

} // verus!
