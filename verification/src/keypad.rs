use vstd::prelude::*;
use crate::emulator::Emulator;
use crate::keys::{hex_digit_value, ChipKey};

verus! {

broadcast use vstd::std_specs::hash::group_hash_axioms;

/// The characters on the keys of the keypad, row by row, four keys to a
/// row.
pub const KEYPAD: [char; 16] = [
    '1', '2', '3', 'C',
    '4', '5', '6', 'D',
    '7', '8', '9', 'E',
    'A', '0', 'B', 'F',
];

/// The keys of the keyboard that stand for the keys of the keypad, in the
/// order of `KEYPAD`: the left four keys of the four rows of a keyboard.
pub const KEYBOARD: [char; 16] = [
    '1', '2', '3', '4',
    'Q', 'W', 'E', 'R',
    'A', 'S', 'D', 'F',
    'Z', 'X', 'C', 'V',
];

/// Every character of `KEYPAD` is a hexadecimal digit, and no two places
/// of `KEYBOARD` hold the same character.
pub proof fn lemma_layout()
    ensures
        forall|idx: int| 0 <= idx < 16 ==> (#[trigger] hex_digit_value(KEYPAD@[idx])) is Some,
        forall|i: int, j: int|
            0 <= i < 16 && 0 <= j < 16 && #[trigger] KEYBOARD@[i] == #[trigger] KEYBOARD@[j] ==> i
                == j,
{
    assert forall|idx: int| 0 <= idx < 16 implies (#[trigger] hex_digit_value(
        KEYPAD@[idx],
    )) is Some by {
        if idx < 4 {
        } else if idx < 8 {
        } else if idx < 12 {
        } else {
        }
    }
}

/// Whether the key with the character `c` on it is down.
pub open spec fn is_down(keys: Seq<bool>, c: char) -> bool {
    match hex_digit_value(c) {
        Some(v) => keys[v as int],
        None => false,
    }
}

/// For each key of the keypad, in the order of `KEYPAD`, whether it is
/// down.
pub fn pressed_cells(emu: &Emulator) -> (cells: Vec<bool>)
    ensures
        cells@.len() == 16,
        forall|idx: int| 0 <= idx < 16 ==> #[trigger] cells@[idx] == is_down(emu@.keys, KEYPAD@[idx]),
{
    let key_states = emu.key_states();
    let mut cells: Vec<bool> = Vec::new();
    let mut idx: usize = 0;
    while idx < 16
        invariant
            idx <= 16,
            cells@.len() == idx,
            forall|k: u8| key_states@.contains_key(k) <==> k < 16,
            forall|k: u8| k < 16 ==> key_states@[k] == emu@.keys[k as int],
            forall|j: int|
                0 <= j < idx ==> #[trigger] cells@[j] == is_down(emu@.keys, KEYPAD@[j]),
        decreases 16 - idx,
    {
        let ch: char = KEYPAD[idx];
        let mut pressed = false;
        if let Some(key) = ChipKey::from_char(&ch) {
            let hex: u8 = key.to_hex();
            if let Some(down) = key_states.get(&hex) {
                pressed = *down;
            }
        }
        cells.push(pressed);
        idx += 1;
    }
    cells
}

/// The key of the keypad that the key `c` of the keyboard stands for: the
/// one at the same place in `KEYPAD` as `c` has in `KEYBOARD`. `None` for a
/// character that is not in `KEYBOARD`.
pub fn key_on_keyboard(c: char) -> (key: Option<ChipKey>)
    ensures
        forall|idx: int|
            0 <= idx < 16 && #[trigger] KEYBOARD@[idx] == c ==> key is Some && Some(
                key.unwrap().hex(),
            ) == hex_digit_value(KEYPAD@[idx]),
        (forall|idx: int| 0 <= idx < 16 ==> #[trigger] KEYBOARD@[idx] != c) ==> key is None,
{
    let mut idx: usize = 0;
    while idx < 16
        invariant
            idx <= 16,
            forall|k: int| 0 <= k < idx ==> #[trigger] KEYBOARD@[k] != c,
        decreases 16 - idx,
    {
        if KEYBOARD[idx] == c {
            proof {
                lemma_layout();
                assert(hex_digit_value(KEYPAD@[idx as int]) is Some);
            }
            return ChipKey::from_char(&KEYPAD[idx]);
        }
        idx += 1;
    }
    None
}

} // verus!
