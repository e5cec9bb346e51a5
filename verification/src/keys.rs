use vstd::prelude::*;
use crate::hex::digit_char;

verus! {

/// One of the sixteen keys of the hexadecimal keypad.
#[derive(Debug, Clone, Copy, PartialEq, Eq, Hash, Structural)]
pub enum ChipKey {
    Num0,
    Num1,
    Num2,
    Num3,
    Num4,
    Num5,
    Num6,
    Num7,
    Num8,
    Num9,
    A,
    B,
    C,
    D,
    E,
    F,
}

/// The value of a hexadecimal digit, in either case; `None` for any other
/// character.
pub open spec fn hex_digit_value(c: char) -> Option<u8> {
    if '0' <= c <= '9' {
        Some((c as u32 - '0' as u32) as u8)
    } else if 'a' <= c <= 'f' {
        Some((c as u32 - 'a' as u32 + 10) as u8)
    } else if 'A' <= c <= 'F' {
        Some((c as u32 - 'A' as u32 + 10) as u8)
    } else {
        None
    }
}

impl ChipKey {
    /// The number of the key, from 0 to 15.
    pub open spec fn hex(self) -> u8 {
        match self {
            ChipKey::Num0 => 0x0,
            ChipKey::Num1 => 0x1,
            ChipKey::Num2 => 0x2,
            ChipKey::Num3 => 0x3,
            ChipKey::Num4 => 0x4,
            ChipKey::Num5 => 0x5,
            ChipKey::Num6 => 0x6,
            ChipKey::Num7 => 0x7,
            ChipKey::Num8 => 0x8,
            ChipKey::Num9 => 0x9,
            ChipKey::A => 0xA,
            ChipKey::B => 0xB,
            ChipKey::C => 0xC,
            ChipKey::D => 0xD,
            ChipKey::E => 0xE,
            ChipKey::F => 0xF,
        }
    }

    /// The key whose number is `hex`, if `hex` is below 16.
    pub open spec fn of_hex(hex: u8) -> Option<ChipKey> {
        if hex >= 16 {
            None
        } else {
            Some(
                choose|k: ChipKey| k.hex() == hex,
            )
        }
    }

    /// Every number below 16 is the number of exactly one key.
    pub proof fn lemma_hex_bijective()
        ensures
            forall|k: ChipKey| #[trigger] k.hex() < 16,
            forall|k: ChipKey| #[trigger] ChipKey::of_hex(k.hex()) == Some(k),
            forall|h: u8|
                h < 16 ==> (#[trigger] ChipKey::of_hex(h)) is Some && ChipKey::of_hex(
                    h,
                ).unwrap().hex() == h,
            forall|a: ChipKey, b: ChipKey| #[trigger] a.hex() == #[trigger] b.hex() ==> a == b,
    {
        assert forall|h: u8| h < 16 implies (#[trigger] ChipKey::of_hex(h)) is Some
            && ChipKey::of_hex(h).unwrap().hex() == h by {
            Self::lemma_of_hex(h);
        }
        assert forall|k: ChipKey| #[trigger] ChipKey::of_hex(k.hex()) == Some(k) by {
            Self::lemma_of_hex(k.hex());
        }
    }

    /// `of_hex` names the one key with the given number.
    pub proof fn lemma_of_hex(h: u8)
        requires
            h < 16,
        ensures
            ChipKey::of_hex(h) is Some,
            ChipKey::of_hex(h).unwrap().hex() == h,
            forall|k: ChipKey| k.hex() == h ==> ChipKey::of_hex(h) == Some(k),
    {
        let w = if h == 0 {
            ChipKey::Num0
        } else if h == 1 {
            ChipKey::Num1
        } else if h == 2 {
            ChipKey::Num2
        } else if h == 3 {
            ChipKey::Num3
        } else if h == 4 {
            ChipKey::Num4
        } else if h == 5 {
            ChipKey::Num5
        } else if h == 6 {
            ChipKey::Num6
        } else if h == 7 {
            ChipKey::Num7
        } else if h == 8 {
            ChipKey::Num8
        } else if h == 9 {
            ChipKey::Num9
        } else if h == 10 {
            ChipKey::A
        } else if h == 11 {
            ChipKey::B
        } else if h == 12 {
            ChipKey::C
        } else if h == 13 {
            ChipKey::D
        } else if h == 14 {
            ChipKey::E
        } else {
            ChipKey::F
        };
        assert(w.hex() == h);
    }

    /// The number of the key.
    pub fn to_hex(&self) -> (hex: u8)
        ensures
            hex == self.hex(),
            hex < 16,
    {
        match self {
            ChipKey::Num0 => 0x0,
            ChipKey::Num1 => 0x1,
            ChipKey::Num2 => 0x2,
            ChipKey::Num3 => 0x3,
            ChipKey::Num4 => 0x4,
            ChipKey::Num5 => 0x5,
            ChipKey::Num6 => 0x6,
            ChipKey::Num7 => 0x7,
            ChipKey::Num8 => 0x8,
            ChipKey::Num9 => 0x9,
            ChipKey::A => 0xA,
            ChipKey::B => 0xB,
            ChipKey::C => 0xC,
            ChipKey::D => 0xD,
            ChipKey::E => 0xE,
            ChipKey::F => 0xF,
        }
    }

    /// The key with the given number; `None` for a number above 15.
    pub fn from_hex(hex: u8) -> (key: Option<ChipKey>)
        ensures
            key == ChipKey::of_hex(hex),
            key is Some <==> hex < 16,
            key is Some ==> key.unwrap().hex() == hex,
    {
        proof {
            if hex < 16 {
                Self::lemma_of_hex(hex);
            }
        }
        match hex {
            0x0 => Some(ChipKey::Num0),
            0x1 => Some(ChipKey::Num1),
            0x2 => Some(ChipKey::Num2),
            0x3 => Some(ChipKey::Num3),
            0x4 => Some(ChipKey::Num4),
            0x5 => Some(ChipKey::Num5),
            0x6 => Some(ChipKey::Num6),
            0x7 => Some(ChipKey::Num7),
            0x8 => Some(ChipKey::Num8),
            0x9 => Some(ChipKey::Num9),
            0xA => Some(ChipKey::A),
            0xB => Some(ChipKey::B),
            0xC => Some(ChipKey::C),
            0xD => Some(ChipKey::D),
            0xE => Some(ChipKey::E),
            0xF => Some(ChipKey::F),
            _ => None,
        }
    }

    /// The key that a hexadecimal digit names, in either case; `None` for
    /// any other character.
    pub fn from_char(c: &char) -> (key: Option<ChipKey>)
        ensures
            key == match hex_digit_value(*c) {
                Some(v) => ChipKey::of_hex(v),
                None => None,
            },
            key is Some <==> hex_digit_value(*c) is Some,
            key is Some ==> Some(key.unwrap().hex()) == hex_digit_value(*c),
    {
        proof {
            if hex_digit_value(*c) is Some {
                Self::lemma_of_hex(hex_digit_value(*c).unwrap());
            }
        }
        match *c {
            '0' => Some(ChipKey::Num0),
            '1' => Some(ChipKey::Num1),
            '2' => Some(ChipKey::Num2),
            '3' => Some(ChipKey::Num3),
            '4' => Some(ChipKey::Num4),
            '5' => Some(ChipKey::Num5),
            '6' => Some(ChipKey::Num6),
            '7' => Some(ChipKey::Num7),
            '8' => Some(ChipKey::Num8),
            '9' => Some(ChipKey::Num9),
            'a' | 'A' => Some(ChipKey::A),
            'b' | 'B' => Some(ChipKey::B),
            'c' | 'C' => Some(ChipKey::C),
            'd' | 'D' => Some(ChipKey::D),
            'e' | 'E' => Some(ChipKey::E),
            'f' | 'F' => Some(ChipKey::F),
            _ => None,
        }
    }

    /// The upper-case hexadecimal digit that names the key.
    pub fn to_char(&self) -> (c: char)
        ensures
            c == digit_char(self.hex() as nat),
            hex_digit_value(c) == Some(self.hex()),
    {
        match self {
            ChipKey::Num0 => '0',
            ChipKey::Num1 => '1',
            ChipKey::Num2 => '2',
            ChipKey::Num3 => '3',
            ChipKey::Num4 => '4',
            ChipKey::Num5 => '5',
            ChipKey::Num6 => '6',
            ChipKey::Num7 => '7',
            ChipKey::Num8 => '8',
            ChipKey::Num9 => '9',
            ChipKey::A => 'A',
            ChipKey::B => 'B',
            ChipKey::C => 'C',
            ChipKey::D => 'D',
            ChipKey::E => 'E',
            ChipKey::F => 'F',
        }
    }

    /// The name of the key: its upper-case hexadecimal digit.
    pub fn to_string(&self) -> (name: String)
        ensures
            name@ == seq![digit_char(self.hex() as nat)],
    {
        let mut name = String::new();
        name.push(self.to_char());
        assert(name@ =~= seq![digit_char(self.hex() as nat)]);
        name
    }
}

} // verus!
