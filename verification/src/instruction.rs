use vstd::prelude::*;
use vstd::string::StringExecFns;
use crate::hex::{push_upper_hex, upper_hex};

verus! {

/// One operation of the machine, with its operands.
///
/// `x` and `y` are register numbers, `nn` an 8-bit immediate, `nnn` a 12-bit
/// address and `n` a 4-bit immediate. A word that matches no pattern is kept
/// as `Unknown`.
#[derive(Debug, Clone, Copy, PartialEq, Eq, Structural)]
pub enum Instruction {
    Nop,
    ClearScreen,
    Ret,
    Jump { nnn: u16 },
    JumpPlusV0 { nnn: u16 },
    Call { nnn: u16 },
    SkipVxEqNN { x: usize, nn: u8 },
    SkipVxNeqNN { x: usize, nn: u8 },
    SkipVxEqVy { x: usize, y: usize },
    SkipVxNeqVy { x: usize, y: usize },
    SetVxNN { x: usize, nn: u8 },
    SetVxVy { x: usize, y: usize },
    SetVxDt { x: usize },
    SetVxKey { x: usize },
    SetVxRnd { x: usize, nn: u8 },
    SetI { nnn: u16 },
    SetVxFontToI { x: usize },
    SetVxBcdToI { x: usize },
    SetDtVx { x: usize },
    SetStVx { x: usize },
    AddVxNN { x: usize, nn: u8 },
    AddVxVy { x: usize, y: usize },
    SubVxVy { x: usize, y: usize },
    SubVyVx { x: usize, y: usize },
    AddVxToI { x: usize },
    OrVxVy { x: usize, y: usize },
    AndVxVy { x: usize, y: usize },
    XorVxVy { x: usize, y: usize },
    RShiftVx { x: usize, y: usize },
    LShiftVx { x: usize, y: usize },
    SkipVxDown { x: usize },
    SkipVxUp { x: usize },
    Draw { x: usize, y: usize, n: u8 },
    SaveVx { x: usize },
    LoadVx { x: usize },
    Unknown { opcode: u16 },
}

/// The first (highest) nibble of a word.
pub open spec fn nibble1(opcode: u16) -> u8 {
    (opcode >> 12) as u8
}

/// The second nibble of a word.
pub open spec fn nibble2(opcode: u16) -> u8 {
    ((opcode & 0x0F00) >> 8) as u8
}

/// The third nibble of a word.
pub open spec fn nibble3(opcode: u16) -> u8 {
    ((opcode & 0x00F0) >> 4) as u8
}

/// The fourth (lowest) nibble of a word.
pub open spec fn nibble4(opcode: u16) -> u8 {
    (opcode & 0x000F) as u8
}

/// The low twelve bits of a word.
pub open spec fn low_twelve(opcode: u16) -> u16 {
    opcode & 0x0FFF
}

/// The low byte of a word.
pub open spec fn low_byte(opcode: u16) -> u8 {
    (opcode & 0x00FF) as u8
}

/// The operation that a word stands for, read off its four nibbles.
pub open spec fn decode(opcode: u16) -> Instruction {
    let nnn = low_twelve(opcode);
    let nn = low_byte(opcode);
    let x = nibble2(opcode) as usize;
    let y = nibble3(opcode) as usize;
    let n = nibble4(opcode);
    match (nibble1(opcode), nibble2(opcode), nibble3(opcode), nibble4(opcode)) {
        (0, 0, 0, 0) => Instruction::Nop,
        (0, 0, 0xE, 0) => Instruction::ClearScreen,
        (0, 0, 0xE, 0xE) => Instruction::Ret,
        (1, _, _, _) => Instruction::Jump { nnn },
        (2, _, _, _) => Instruction::Call { nnn },
        (3, _, _, _) => Instruction::SkipVxEqNN { x, nn },
        (4, _, _, _) => Instruction::SkipVxNeqNN { x, nn },
        (5, _, _, 0) => Instruction::SkipVxEqVy { x, y },
        (6, _, _, _) => Instruction::SetVxNN { x, nn },
        (7, _, _, _) => Instruction::AddVxNN { x, nn },
        (8, _, _, 0) => Instruction::SetVxVy { x, y },
        (8, _, _, 1) => Instruction::OrVxVy { x, y },
        (8, _, _, 2) => Instruction::AndVxVy { x, y },
        (8, _, _, 3) => Instruction::XorVxVy { x, y },
        (8, _, _, 4) => Instruction::AddVxVy { x, y },
        (8, _, _, 5) => Instruction::SubVxVy { x, y },
        (8, _, _, 6) => Instruction::RShiftVx { x, y },
        (8, _, _, 7) => Instruction::SubVyVx { x, y },
        (8, _, _, 0xE) => Instruction::LShiftVx { x, y },
        (9, _, _, 0) => Instruction::SkipVxNeqVy { x, y },
        (0xA, _, _, _) => Instruction::SetI { nnn },
        (0xB, _, _, _) => Instruction::JumpPlusV0 { nnn },
        (0xC, _, _, _) => Instruction::SetVxRnd { x, nn },
        (0xD, _, _, _) => Instruction::Draw { x, y, n },
        (0xE, _, 9, 0xE) => Instruction::SkipVxDown { x },
        (0xE, _, 0xA, 1) => Instruction::SkipVxUp { x },
        (0xF, _, 0, 7) => Instruction::SetVxDt { x },
        (0xF, _, 0, 0xA) => Instruction::SetVxKey { x },
        (0xF, _, 1, 5) => Instruction::SetDtVx { x },
        (0xF, _, 1, 8) => Instruction::SetStVx { x },
        (0xF, _, 1, 0xE) => Instruction::AddVxToI { x },
        (0xF, _, 2, 9) => Instruction::SetVxFontToI { x },
        (0xF, _, 3, 3) => Instruction::SetVxBcdToI { x },
        (0xF, _, 5, 5) => Instruction::SaveVx { x },
        (0xF, _, 6, 5) => Instruction::LoadVx { x },
        _ => Instruction::Unknown { opcode },
    }
}

/// A word made of a pattern and a 12-bit address.
pub open spec fn word_nnn(pattern: u16, nnn: u16) -> u16 {
    pattern | nnn
}

/// A word made of a pattern, a register number and an 8-bit immediate.
pub open spec fn word_xnn(pattern: u16, x: usize, nn: u8) -> u16 {
    pattern | ((x as u16) << 8) | (nn as u16)
}

/// A word made of a pattern and two register numbers.
pub open spec fn word_xy(pattern: u16, x: usize, y: usize) -> u16 {
    pattern | ((x as u16) << 8) | ((y as u16) << 4)
}

/// A word made of a pattern and one register number.
pub open spec fn word_x(pattern: u16, x: usize) -> u16 {
    pattern | ((x as u16) << 8)
}

/// A word made of a pattern, two register numbers and a 4-bit immediate.
pub open spec fn word_xyn(pattern: u16, x: usize, y: usize, n: u8) -> u16 {
    pattern | ((x as u16) << 8) | ((y as u16) << 4) | (n as u16)
}

impl Instruction {
    /// The word that stands for the operation: its pattern with the operands
    /// put in their places.
    pub open spec fn encoding(self) -> u16 {
        match self {
            Instruction::Nop => 0x0000,
            Instruction::ClearScreen => 0x00E0,
            Instruction::Ret => 0x00EE,
            Instruction::Jump { nnn } => word_nnn(0x1000, nnn),
            Instruction::JumpPlusV0 { nnn } => word_nnn(0xB000, nnn),
            Instruction::Call { nnn } => word_nnn(0x2000, nnn),
            Instruction::SkipVxEqNN { x, nn } => word_xnn(0x3000, x, nn),
            Instruction::SkipVxNeqNN { x, nn } => word_xnn(0x4000, x, nn),
            Instruction::SkipVxEqVy { x, y } => word_xy(0x5000, x, y),
            Instruction::SkipVxNeqVy { x, y } => word_xy(0x9000, x, y),
            Instruction::SetVxNN { x, nn } => word_xnn(0x6000, x, nn),
            Instruction::SetVxVy { x, y } => word_xy(0x8000, x, y),
            Instruction::SetVxDt { x } => word_x(0xF007, x),
            Instruction::SetVxKey { x } => word_x(0xF00A, x),
            Instruction::SetVxRnd { x, nn } => word_xnn(0xC000, x, nn),
            Instruction::SetI { nnn } => word_nnn(0xA000, nnn),
            Instruction::SetVxFontToI { x } => word_x(0xF029, x),
            Instruction::SetVxBcdToI { x } => word_x(0xF033, x),
            Instruction::SetDtVx { x } => word_x(0xF015, x),
            Instruction::SetStVx { x } => word_x(0xF018, x),
            Instruction::AddVxNN { x, nn } => word_xnn(0x7000, x, nn),
            Instruction::AddVxVy { x, y } => word_xy(0x8004, x, y),
            Instruction::SubVxVy { x, y } => word_xy(0x8005, x, y),
            Instruction::SubVyVx { x, y } => word_xy(0x8007, x, y),
            Instruction::AddVxToI { x } => word_x(0xF01E, x),
            Instruction::OrVxVy { x, y } => word_xy(0x8001, x, y),
            Instruction::AndVxVy { x, y } => word_xy(0x8002, x, y),
            Instruction::XorVxVy { x, y } => word_xy(0x8003, x, y),
            Instruction::RShiftVx { x, y } => word_xy(0x8006, x, y),
            Instruction::LShiftVx { x, y } => word_xy(0x800E, x, y),
            Instruction::SkipVxDown { x } => word_x(0xE09E, x),
            Instruction::SkipVxUp { x } => word_x(0xE0A1, x),
            Instruction::Draw { x, y, n } => word_xyn(0xD000, x, y, n),
            Instruction::SaveVx { x } => word_x(0xF055, x),
            Instruction::LoadVx { x } => word_x(0xF065, x),
            Instruction::Unknown { opcode } => opcode,
        }
    }

    /// Decodes a word. Every word decodes; one that matches no pattern
    /// gives `Unknown` with the word in it.
    pub fn from_opcode(opcode: u16) -> (instruction: Instruction)
        ensures
            instruction == decode(opcode),
    {
        let d1: u8 = (opcode >> 12) as u8;
        let d2: u8 = ((opcode & 0x0F00) >> 8) as u8;
        let d3: u8 = ((opcode & 0x00F0) >> 4) as u8;
        let d4: u8 = (opcode & 0x000F) as u8;

        let nnn: u16 = opcode & 0x0FFF;
        let nn: u8 = (opcode & 0x00FF) as u8;
        let x: usize = d2 as usize;
        let y: usize = d3 as usize;
        let n: u8 = d4;

        match (d1, d2, d3, d4) {
            (0, 0, 0, 0) => Self::Nop,
            (0, 0, 0xE, 0) => Self::ClearScreen,
            (0, 0, 0xE, 0xE) => Self::Ret,
            (1, _, _, _) => Self::Jump { nnn },
            (2, _, _, _) => Self::Call { nnn },
            (3, _, _, _) => Self::SkipVxEqNN { x, nn },
            (4, _, _, _) => Self::SkipVxNeqNN { x, nn },
            (5, _, _, 0) => Self::SkipVxEqVy { x, y },
            (6, _, _, _) => Self::SetVxNN { x, nn },
            (7, _, _, _) => Self::AddVxNN { x, nn },
            (8, _, _, 0) => Self::SetVxVy { x, y },
            (8, _, _, 1) => Self::OrVxVy { x, y },
            (8, _, _, 2) => Self::AndVxVy { x, y },
            (8, _, _, 3) => Self::XorVxVy { x, y },
            (8, _, _, 4) => Self::AddVxVy { x, y },
            (8, _, _, 5) => Self::SubVxVy { x, y },
            (8, _, _, 6) => Self::RShiftVx { x, y },
            (8, _, _, 7) => Self::SubVyVx { x, y },
            (8, _, _, 0xE) => Self::LShiftVx { x, y },
            (9, _, _, 0) => Self::SkipVxNeqVy { x, y },
            (0xA, _, _, _) => Self::SetI { nnn },
            (0xB, _, _, _) => Self::JumpPlusV0 { nnn },
            (0xC, _, _, _) => Self::SetVxRnd { x, nn },
            (0xD, _, _, _) => Self::Draw { x, y, n },
            (0xE, _, 9, 0xE) => Self::SkipVxDown { x },
            (0xE, _, 0xA, 1) => Self::SkipVxUp { x },
            (0xF, _, 0, 7) => Self::SetVxDt { x },
            (0xF, _, 0, 0xA) => Self::SetVxKey { x },
            (0xF, _, 1, 5) => Self::SetDtVx { x },
            (0xF, _, 1, 8) => Self::SetStVx { x },
            (0xF, _, 1, 0xE) => Self::AddVxToI { x },
            (0xF, _, 2, 9) => Self::SetVxFontToI { x },
            (0xF, _, 3, 3) => Self::SetVxBcdToI { x },
            (0xF, _, 5, 5) => Self::SaveVx { x },
            (0xF, _, 6, 5) => Self::LoadVx { x },
            _ => Self::Unknown { opcode },
        }
    }
}

impl Instruction {
    /// Whether every operand fits the place that it has in a word: register
    /// numbers and `n` below 16, addresses below 4096.
    pub open spec fn operands_fit(self) -> bool {
        match self {
            Instruction::Nop | Instruction::ClearScreen | Instruction::Ret => true,
            Instruction::Jump { nnn }
            | Instruction::JumpPlusV0 { nnn }
            | Instruction::Call { nnn }
            | Instruction::SetI { nnn } => nnn < 0x1000,
            Instruction::SkipVxEqNN { x, nn }
            | Instruction::SkipVxNeqNN { x, nn }
            | Instruction::SetVxNN { x, nn }
            | Instruction::SetVxRnd { x, nn }
            | Instruction::AddVxNN { x, nn } => x < 16,
            Instruction::SkipVxEqVy { x, y }
            | Instruction::SkipVxNeqVy { x, y }
            | Instruction::SetVxVy { x, y }
            | Instruction::AddVxVy { x, y }
            | Instruction::SubVxVy { x, y }
            | Instruction::SubVyVx { x, y }
            | Instruction::OrVxVy { x, y }
            | Instruction::AndVxVy { x, y }
            | Instruction::XorVxVy { x, y }
            | Instruction::RShiftVx { x, y }
            | Instruction::LShiftVx { x, y } => x < 16 && y < 16,
            Instruction::SetVxDt { x }
            | Instruction::SetVxKey { x }
            | Instruction::SetVxFontToI { x }
            | Instruction::SetVxBcdToI { x }
            | Instruction::SetDtVx { x }
            | Instruction::SetStVx { x }
            | Instruction::AddVxToI { x }
            | Instruction::SkipVxDown { x }
            | Instruction::SkipVxUp { x }
            | Instruction::SaveVx { x }
            | Instruction::LoadVx { x } => x < 16,
            Instruction::Draw { x, y, n } => x < 16 && y < 16 && n < 16,
            Instruction::Unknown { opcode } => true,
        }
    }

    /// Whether the operation is one that some word decodes to: its operands
    /// fit, and an `Unknown` holds a word that matches no pattern.
    pub open spec fn canonical(self) -> bool {
        &&& self.operands_fit()
        &&& self matches Instruction::Unknown { opcode } ==> decode(opcode)
            == Instruction::Unknown { opcode }
    }

    /// The word that stands for the operation. Operands that do not fit
    /// their place are cut to 16 bits and spill into the neighbouring
    /// nibbles.
    pub fn opcode(&self) -> (word: u16)
        ensures
            word == self.encoding(),
    {
        match *self {
            Self::Nop => 0x0000,
            Self::ClearScreen => 0x00E0,
            Self::Ret => 0x00EE,
            Self::Jump { nnn } => make_nnn(0x1000, nnn),
            Self::JumpPlusV0 { nnn } => make_nnn(0xB000, nnn),
            Self::Call { nnn } => make_nnn(0x2000, nnn),
            Self::SkipVxEqNN { x, nn } => make_xnn(0x3000, x, nn),
            Self::SkipVxNeqNN { x, nn } => make_xnn(0x4000, x, nn),
            Self::SkipVxEqVy { x, y } => make_xyn(0x5000, x, y, 0),
            Self::SkipVxNeqVy { x, y } => make_xyn(0x9000, x, y, 0),
            Self::SetVxNN { x, nn } => make_xnn(0x6000, x, nn),
            Self::SetVxVy { x, y } => make_xyn(0x8000, x, y, 0),
            Self::SetVxDt { x } => make_xnn(0xF007, x, 0),
            Self::SetVxKey { x } => make_xnn(0xF00A, x, 0),
            Self::SetVxRnd { x, nn } => make_xnn(0xC000, x, nn),
            Self::SetI { nnn } => make_nnn(0xA000, nnn),
            Self::SetVxFontToI { x } => make_xnn(0xF029, x, 0),
            Self::SetVxBcdToI { x } => make_xnn(0xF033, x, 0),
            Self::SetDtVx { x } => make_xnn(0xF015, x, 0),
            Self::SetStVx { x } => make_xnn(0xF018, x, 0),
            Self::AddVxNN { x, nn } => make_xnn(0x7000, x, nn),
            Self::AddVxVy { x, y } => make_xyn(0x8004, x, y, 0),
            Self::SubVxVy { x, y } => make_xyn(0x8005, x, y, 0),
            Self::SubVyVx { x, y } => make_xyn(0x8007, x, y, 0),
            Self::AddVxToI { x } => make_xnn(0xF01E, x, 0),
            Self::OrVxVy { x, y } => make_xyn(0x8001, x, y, 0),
            Self::AndVxVy { x, y } => make_xyn(0x8002, x, y, 0),
            Self::XorVxVy { x, y } => make_xyn(0x8003, x, y, 0),
            Self::RShiftVx { x, y } => make_xyn(0x8006, x, y, 0),
            Self::LShiftVx { x, y } => make_xyn(0x800E, x, y, 0),
            Self::SkipVxDown { x } => make_xnn(0xE09E, x, 0),
            Self::SkipVxUp { x } => make_xnn(0xE0A1, x, 0),
            Self::Draw { x, y, n } => make_xyn(0xD000, x, y, n),
            Self::SaveVx { x } => make_xnn(0xF055, x, 0),
            Self::LoadVx { x } => make_xnn(0xF065, x, 0),
            Self::Unknown { opcode } => opcode,
        }
    }
}

impl Instruction {
    /// The register that the operation names as `x`, if it names one.
    pub open spec fn register_x(self) -> Option<usize> {
        match self {
            Instruction::Nop
            | Instruction::ClearScreen
            | Instruction::Ret
            | Instruction::Jump { .. }
            | Instruction::JumpPlusV0 { .. }
            | Instruction::Call { .. }
            | Instruction::SetI { .. }
            | Instruction::Unknown { .. } => None,
            Instruction::SkipVxEqNN { x, .. }
            | Instruction::SkipVxNeqNN { x, .. }
            | Instruction::SetVxNN { x, .. }
            | Instruction::SetVxRnd { x, .. }
            | Instruction::AddVxNN { x, .. }
            | Instruction::SkipVxEqVy { x, .. }
            | Instruction::SkipVxNeqVy { x, .. }
            | Instruction::SetVxVy { x, .. }
            | Instruction::AddVxVy { x, .. }
            | Instruction::SubVxVy { x, .. }
            | Instruction::SubVyVx { x, .. }
            | Instruction::OrVxVy { x, .. }
            | Instruction::AndVxVy { x, .. }
            | Instruction::XorVxVy { x, .. }
            | Instruction::RShiftVx { x, .. }
            | Instruction::LShiftVx { x, .. }
            | Instruction::SetVxDt { x }
            | Instruction::SetVxKey { x }
            | Instruction::SetVxFontToI { x }
            | Instruction::SetVxBcdToI { x }
            | Instruction::SetDtVx { x }
            | Instruction::SetStVx { x }
            | Instruction::AddVxToI { x }
            | Instruction::SkipVxDown { x }
            | Instruction::SkipVxUp { x }
            | Instruction::SaveVx { x }
            | Instruction::LoadVx { x }
            | Instruction::Draw { x, .. } => Some(x),
        }
    }

    /// The register that the operation names as `y`, if it names one.
    pub open spec fn register_y(self) -> Option<usize> {
        match self {
            Instruction::SkipVxEqVy { y, .. }
            | Instruction::SkipVxNeqVy { y, .. }
            | Instruction::SetVxVy { y, .. }
            | Instruction::AddVxVy { y, .. }
            | Instruction::SubVxVy { y, .. }
            | Instruction::SubVyVx { y, .. }
            | Instruction::OrVxVy { y, .. }
            | Instruction::AndVxVy { y, .. }
            | Instruction::XorVxVy { y, .. }
            | Instruction::RShiftVx { y, .. }
            | Instruction::LShiftVx { y, .. }
            | Instruction::Draw { y, .. } => Some(y),
            _ => None,
        }
    }

    /// The first register that the operation names and that does not exist:
    /// `x` if it is above 15, else `y` if it is.
    pub open spec fn missing_register(self) -> Option<usize> {
        if self.register_x() is Some && self.register_x().unwrap() >= 16 {
            self.register_x()
        } else if self.register_y() is Some && self.register_y().unwrap() >= 16 {
            self.register_y()
        } else {
            None
        }
    }

    /// The registers that the operation names as `x` and as `y`.
    pub fn registers(&self) -> (named: (Option<usize>, Option<usize>))
        ensures
            named.0 == self.register_x(),
            named.1 == self.register_y(),
    {
        match *self {
            Self::Nop
            | Self::ClearScreen
            | Self::Ret
            | Self::Jump { .. }
            | Self::JumpPlusV0 { .. }
            | Self::Call { .. }
            | Self::SetI { .. }
            | Self::Unknown { .. } => (None, None),
            Self::SkipVxEqNN { x, .. }
            | Self::SkipVxNeqNN { x, .. }
            | Self::SetVxNN { x, .. }
            | Self::SetVxRnd { x, .. }
            | Self::AddVxNN { x, .. }
            | Self::SetVxDt { x }
            | Self::SetVxKey { x }
            | Self::SetVxFontToI { x }
            | Self::SetVxBcdToI { x }
            | Self::SetDtVx { x }
            | Self::SetStVx { x }
            | Self::AddVxToI { x }
            | Self::SkipVxDown { x }
            | Self::SkipVxUp { x }
            | Self::SaveVx { x }
            | Self::LoadVx { x } => (Some(x), None),
            Self::SkipVxEqVy { x, y }
            | Self::SkipVxNeqVy { x, y }
            | Self::SetVxVy { x, y }
            | Self::AddVxVy { x, y }
            | Self::SubVxVy { x, y }
            | Self::SubVyVx { x, y }
            | Self::OrVxVy { x, y }
            | Self::AndVxVy { x, y }
            | Self::XorVxVy { x, y }
            | Self::RShiftVx { x, y }
            | Self::LShiftVx { x, y }
            | Self::Draw { x, y, .. } => (Some(x), Some(y)),
        }
    }

    /// The first register that the operation names and that does not exist.
    pub fn find_missing_register(&self) -> (missing: Option<usize>)
        ensures
            missing == self.missing_register(),
            self.operands_fit() ==> missing is None,
    {
        let (rx, ry) = self.registers();
        if let Some(x) = rx {
            if x >= 16 {
                return Some(x);
            }
        }
        if let Some(y) = ry {
            if y >= 16 {
                return Some(y);
            }
        }
        None
    }
}

impl Instruction {
    /// The name of the operation.
    pub open spec fn mnemonic(self) -> Seq<char> {
        match self {
            Instruction::Nop => "Nop"@,
            Instruction::ClearScreen => "ClearScreen"@,
            Instruction::Ret => "Ret"@,
            Instruction::Jump { .. } => "Jump"@,
            Instruction::JumpPlusV0 { .. } => "JumpPlusV0"@,
            Instruction::Call { .. } => "Call"@,
            Instruction::SkipVxEqNN { .. } => "SkipVxEqNN"@,
            Instruction::SkipVxNeqNN { .. } => "SkipVxNeqNN"@,
            Instruction::SkipVxEqVy { .. } => "SkipVxEqVy"@,
            Instruction::SkipVxNeqVy { .. } => "SkipVxNeqVy"@,
            Instruction::SetVxNN { .. } => "SetVxNN"@,
            Instruction::SetVxVy { .. } => "SetVxVy"@,
            Instruction::SetVxDt { .. } => "SetVxDt"@,
            Instruction::SetVxKey { .. } => "SetVxKey"@,
            Instruction::SetVxRnd { .. } => "SetVxRnd"@,
            Instruction::SetI { .. } => "SetI"@,
            Instruction::SetVxFontToI { .. } => "SetVxFontToI"@,
            Instruction::SetVxBcdToI { .. } => "SetVxBcdToI"@,
            Instruction::SetDtVx { .. } => "SetDtVx"@,
            Instruction::SetStVx { .. } => "SetStVx"@,
            Instruction::AddVxNN { .. } => "AddVxNN"@,
            Instruction::AddVxVy { .. } => "AddVxVy"@,
            Instruction::SubVxVy { .. } => "SubVxVy"@,
            Instruction::SubVyVx { .. } => "SubVyVx"@,
            Instruction::AddVxToI { .. } => "AddVxToI"@,
            Instruction::OrVxVy { .. } => "OrVxVy"@,
            Instruction::AndVxVy { .. } => "AndVxVy"@,
            Instruction::XorVxVy { .. } => "XorVxVy"@,
            Instruction::RShiftVx { .. } => "RShiftVx"@,
            Instruction::LShiftVx { .. } => "LShiftVx"@,
            Instruction::SkipVxDown { .. } => "SkipVxDown"@,
            Instruction::SkipVxUp { .. } => "SkipVxUp"@,
            Instruction::Draw { .. } => "Draw"@,
            Instruction::SaveVx { .. } => "SaveVx"@,
            Instruction::LoadVx { .. } => "LoadVx"@,
            Instruction::Unknown { .. } => "Unknown"@,
        }
    }

    /// The 12-bit address that the operation holds, if it holds one.
    pub open spec fn address(self) -> Option<u16> {
        match self {
            Instruction::Jump { nnn }
            | Instruction::JumpPlusV0 { nnn }
            | Instruction::Call { nnn }
            | Instruction::SetI { nnn } => Some(nnn),
            _ => None,
        }
    }

    /// The 8-bit immediate that the operation holds, if it holds one.
    pub open spec fn byte(self) -> Option<u8> {
        match self {
            Instruction::SkipVxEqNN { nn, .. }
            | Instruction::SkipVxNeqNN { nn, .. }
            | Instruction::SetVxNN { nn, .. }
            | Instruction::SetVxRnd { nn, .. }
            | Instruction::AddVxNN { nn, .. } => Some(nn),
            _ => None,
        }
    }

    /// The 4-bit immediate that the operation holds, if it holds one.
    pub open spec fn nibble(self) -> Option<u8> {
        match self {
            Instruction::Draw { n, .. } => Some(n),
            _ => None,
        }
    }

    /// The operands as they are written after the name: nothing where there
    /// is none, else in braces each operand's name, a colon and its value
    /// in upper-case hexadecimal, an address three digits wide and a byte
    /// two.
    pub open spec fn operands_text(self) -> Seq<char> {
        if self.address() is Some {
            " { nnn: "@ + upper_hex(self.address().unwrap() as nat, 3) + " }"@
        } else if self.register_x() is Some {
            " { x: "@ + upper_hex(self.register_x().unwrap() as nat, 1) + (if self.register_y()
                is Some {
                ", y: "@ + upper_hex(self.register_y().unwrap() as nat, 1)
            } else {
                Seq::<char>::empty()
            }) + (if self.byte() is Some {
                ", nn: "@ + upper_hex(self.byte().unwrap() as nat, 2)
            } else {
                Seq::<char>::empty()
            }) + (if self.nibble() is Some {
                ", n: "@ + upper_hex(self.nibble().unwrap() as nat, 1)
            } else {
                Seq::<char>::empty()
            }) + " }"@
        } else {
            Seq::<char>::empty()
        }
    }

    /// The operation as a line of text: its word in four hexadecimal
    /// digits, a colon, its name and its operands.
    pub open spec fn text(self) -> Seq<char> {
        upper_hex(self.encoding() as nat, 4) + ": "@ + self.mnemonic() + self.operands_text()
    }

    /// The name of the operation.
    pub fn name(&self) -> (name: &'static str)
        ensures
            name@ == self.mnemonic(),
    {
        match *self {
            Self::Nop => "Nop",
            Self::ClearScreen => "ClearScreen",
            Self::Ret => "Ret",
            Self::Jump { .. } => "Jump",
            Self::JumpPlusV0 { .. } => "JumpPlusV0",
            Self::Call { .. } => "Call",
            Self::SkipVxEqNN { .. } => "SkipVxEqNN",
            Self::SkipVxNeqNN { .. } => "SkipVxNeqNN",
            Self::SkipVxEqVy { .. } => "SkipVxEqVy",
            Self::SkipVxNeqVy { .. } => "SkipVxNeqVy",
            Self::SetVxNN { .. } => "SetVxNN",
            Self::SetVxVy { .. } => "SetVxVy",
            Self::SetVxDt { .. } => "SetVxDt",
            Self::SetVxKey { .. } => "SetVxKey",
            Self::SetVxRnd { .. } => "SetVxRnd",
            Self::SetI { .. } => "SetI",
            Self::SetVxFontToI { .. } => "SetVxFontToI",
            Self::SetVxBcdToI { .. } => "SetVxBcdToI",
            Self::SetDtVx { .. } => "SetDtVx",
            Self::SetStVx { .. } => "SetStVx",
            Self::AddVxNN { .. } => "AddVxNN",
            Self::AddVxVy { .. } => "AddVxVy",
            Self::SubVxVy { .. } => "SubVxVy",
            Self::SubVyVx { .. } => "SubVyVx",
            Self::AddVxToI { .. } => "AddVxToI",
            Self::OrVxVy { .. } => "OrVxVy",
            Self::AndVxVy { .. } => "AndVxVy",
            Self::XorVxVy { .. } => "XorVxVy",
            Self::RShiftVx { .. } => "RShiftVx",
            Self::LShiftVx { .. } => "LShiftVx",
            Self::SkipVxDown { .. } => "SkipVxDown",
            Self::SkipVxUp { .. } => "SkipVxUp",
            Self::Draw { .. } => "Draw",
            Self::SaveVx { .. } => "SaveVx",
            Self::LoadVx { .. } => "LoadVx",
            Self::Unknown { .. } => "Unknown",
        }
    }

    /// The address, the byte and the nibble that the operation holds.
    pub fn immediates(&self) -> (held: (Option<u16>, Option<u8>, Option<u8>))
        ensures
            held.0 == self.address(),
            held.1 == self.byte(),
            held.2 == self.nibble(),
    {
        match *self {
            Self::Jump { nnn }
            | Self::JumpPlusV0 { nnn }
            | Self::Call { nnn }
            | Self::SetI { nnn } => (Some(nnn), None, None),
            Self::SkipVxEqNN { nn, .. }
            | Self::SkipVxNeqNN { nn, .. }
            | Self::SetVxNN { nn, .. }
            | Self::SetVxRnd { nn, .. }
            | Self::AddVxNN { nn, .. } => (None, Some(nn), None),
            Self::Draw { n, .. } => (None, None, Some(n)),
            _ => (None, None, None),
        }
    }

    /// The operation as a line of text, such as `6A0F: SetVxNN { x: A, nn:
    /// 0F }`.
    pub fn to_string(&self) -> (line: String)
        ensures
            line@ == self.text(),
    {
        let mut line = String::new();
        push_upper_hex(&mut line, self.opcode() as usize, 4);
        line.append(": ");
        line.append(self.name());
        let ghost head = line@;
        let (rx, ry) = self.registers();
        let (address, byte, nibble) = self.immediates();
        if let Some(nnn) = address {
            line.append(" { nnn: ");
            push_upper_hex(&mut line, nnn as usize, 3);
            line.append(" }");
        } else if let Some(x) = rx {
            line.append(" { x: ");
            push_upper_hex(&mut line, x, 1);
            if let Some(y) = ry {
                line.append(", y: ");
                push_upper_hex(&mut line, y, 1);
            }
            if let Some(nn) = byte {
                line.append(", nn: ");
                push_upper_hex(&mut line, nn as usize, 2);
            }
            if let Some(n) = nibble {
                line.append(", n: ");
                push_upper_hex(&mut line, n as usize, 1);
            }
            line.append(" }");
        }
        assert(line@ =~= head + self.operands_text());
        assert(line@ =~= self.text());
        line
    }
}

fn make_nnn(pattern: u16, nnn: u16) -> (word: u16)
    ensures
        word == word_nnn(pattern, nnn),
{
    pattern | nnn
}

fn make_xnn(pattern: u16, x: usize, nn: u8) -> (word: u16)
    ensures
        word == word_xnn(pattern, x, nn),
        nn == 0 ==> word == word_x(pattern, x),
{
    let xs: u16 = #[verifier::truncate] (x as u16);
    let left: u16 = xs << 8;
    assert(nn == 0 ==> (pattern | left) | (nn as u16) == pattern | left) by (bit_vector);
    pattern | left | (nn as u16)
}

fn make_xyn(pattern: u16, x: usize, y: usize, n: u8) -> (word: u16)
    ensures
        word == word_xyn(pattern, x, y, n),
        n == 0 ==> word == word_xy(pattern, x, y),
{
    let xs: u16 = #[verifier::truncate] (x as u16);
    let ys: u16 = #[verifier::truncate] (y as u16);
    let left: u16 = xs << 8;
    let mid: u16 = ys << 4;
    assert(n == 0 ==> ((pattern | left) | mid) | (n as u16) == (pattern | left) | mid)
        by (bit_vector);
    pattern | left | mid | (n as u16)
}

/// Putting the operands of a word back into its pattern gives the word.
proof fn lemma_rebuild(op: u16)
    by (bit_vector)
    ensures
        nibble2(op) < 16 && nibble3(op) < 16 && nibble4(op) < 16 && low_twelve(op) < 0x1000,
        nibble1(op) == 0 && nibble2(op) == 0 && nibble3(op) == 0 && nibble4(op) == 0 ==> op == 0x0000,
        nibble1(op) == 0 && nibble2(op) == 0 && nibble3(op) == 0xE && nibble4(op) == 0 ==> op == 0x00E0,
        nibble1(op) == 0 && nibble2(op) == 0 && nibble3(op) == 0xE && nibble4(op) == 0xE ==> op == 0x00EE,
        nibble1(op) == 0x1 ==> word_nnn(0x1000, low_twelve(op)) == op,
        nibble1(op) == 0x2 ==> word_nnn(0x2000, low_twelve(op)) == op,
        nibble1(op) == 0xa ==> word_nnn(0xa000, low_twelve(op)) == op,
        nibble1(op) == 0xb ==> word_nnn(0xb000, low_twelve(op)) == op,
        nibble1(op) == 0x3 ==> word_xnn(0x3000, nibble2(op) as usize, low_byte(op)) == op,
        nibble1(op) == 0x4 ==> word_xnn(0x4000, nibble2(op) as usize, low_byte(op)) == op,
        nibble1(op) == 0x6 ==> word_xnn(0x6000, nibble2(op) as usize, low_byte(op)) == op,
        nibble1(op) == 0x7 ==> word_xnn(0x7000, nibble2(op) as usize, low_byte(op)) == op,
        nibble1(op) == 0xc ==> word_xnn(0xc000, nibble2(op) as usize, low_byte(op)) == op,
        nibble1(op) == 0x5 && nibble4(op) == 0x0 ==> word_xy(0x5000, nibble2(op) as usize, nibble3(op) as usize) == op,
        nibble1(op) == 0x9 && nibble4(op) == 0x0 ==> word_xy(0x9000, nibble2(op) as usize, nibble3(op) as usize) == op,
        nibble1(op) == 0x8 && nibble4(op) == 0x0 ==> word_xy(0x8000, nibble2(op) as usize, nibble3(op) as usize) == op,
        nibble1(op) == 0x8 && nibble4(op) == 0x1 ==> word_xy(0x8001, nibble2(op) as usize, nibble3(op) as usize) == op,
        nibble1(op) == 0x8 && nibble4(op) == 0x2 ==> word_xy(0x8002, nibble2(op) as usize, nibble3(op) as usize) == op,
        nibble1(op) == 0x8 && nibble4(op) == 0x3 ==> word_xy(0x8003, nibble2(op) as usize, nibble3(op) as usize) == op,
        nibble1(op) == 0x8 && nibble4(op) == 0x4 ==> word_xy(0x8004, nibble2(op) as usize, nibble3(op) as usize) == op,
        nibble1(op) == 0x8 && nibble4(op) == 0x5 ==> word_xy(0x8005, nibble2(op) as usize, nibble3(op) as usize) == op,
        nibble1(op) == 0x8 && nibble4(op) == 0x6 ==> word_xy(0x8006, nibble2(op) as usize, nibble3(op) as usize) == op,
        nibble1(op) == 0x8 && nibble4(op) == 0x7 ==> word_xy(0x8007, nibble2(op) as usize, nibble3(op) as usize) == op,
        nibble1(op) == 0x8 && nibble4(op) == 0xe ==> word_xy(0x800e, nibble2(op) as usize, nibble3(op) as usize) == op,
        nibble1(op) == 0xd ==> word_xyn(0xd000, nibble2(op) as usize, nibble3(op) as usize, nibble4(op)) == op,
        nibble1(op) == 0xe && nibble3(op) == 0x9 && nibble4(op) == 0xe ==> word_x(0xe09e, nibble2(op) as usize) == op,
        nibble1(op) == 0xe && nibble3(op) == 0xa && nibble4(op) == 0x1 ==> word_x(0xe0a1, nibble2(op) as usize) == op,
        nibble1(op) == 0xf && nibble3(op) == 0x0 && nibble4(op) == 0x7 ==> word_x(0xf007, nibble2(op) as usize) == op,
        nibble1(op) == 0xf && nibble3(op) == 0x0 && nibble4(op) == 0xa ==> word_x(0xf00a, nibble2(op) as usize) == op,
        nibble1(op) == 0xf && nibble3(op) == 0x1 && nibble4(op) == 0x5 ==> word_x(0xf015, nibble2(op) as usize) == op,
        nibble1(op) == 0xf && nibble3(op) == 0x1 && nibble4(op) == 0x8 ==> word_x(0xf018, nibble2(op) as usize) == op,
        nibble1(op) == 0xf && nibble3(op) == 0x1 && nibble4(op) == 0xe ==> word_x(0xf01e, nibble2(op) as usize) == op,
        nibble1(op) == 0xf && nibble3(op) == 0x2 && nibble4(op) == 0x9 ==> word_x(0xf029, nibble2(op) as usize) == op,
        nibble1(op) == 0xf && nibble3(op) == 0x3 && nibble4(op) == 0x3 ==> word_x(0xf033, nibble2(op) as usize) == op,
        nibble1(op) == 0xf && nibble3(op) == 0x5 && nibble4(op) == 0x5 ==> word_x(0xf055, nibble2(op) as usize) == op,
        nibble1(op) == 0xf && nibble3(op) == 0x6 && nibble4(op) == 0x5 ==> word_x(0xf065, nibble2(op) as usize) == op,
{
}

/// Taking a word apart gives back the operands that it was made of.
proof fn lemma_take_apart(x: usize, y: usize, n: u8, nn: u8, nnn: u16)
    by (bit_vector)
    requires
        x < 16,
        y < 16,
        n < 16,
        nnn < 0x1000,
    ensures
        nibble1(word_nnn(0x1000, nnn)) == 0x1 && low_twelve(word_nnn(0x1000, nnn)) == nnn,
        nibble1(word_nnn(0x2000, nnn)) == 0x2 && low_twelve(word_nnn(0x2000, nnn)) == nnn,
        nibble1(word_nnn(0xa000, nnn)) == 0xa && low_twelve(word_nnn(0xa000, nnn)) == nnn,
        nibble1(word_nnn(0xb000, nnn)) == 0xb && low_twelve(word_nnn(0xb000, nnn)) == nnn,
        nibble1(word_xnn(0x3000, x, nn)) == 0x3 && nibble2(word_xnn(0x3000, x, nn)) as usize == x && low_byte(word_xnn(0x3000, x, nn)) == nn,
        nibble1(word_xnn(0x4000, x, nn)) == 0x4 && nibble2(word_xnn(0x4000, x, nn)) as usize == x && low_byte(word_xnn(0x4000, x, nn)) == nn,
        nibble1(word_xnn(0x6000, x, nn)) == 0x6 && nibble2(word_xnn(0x6000, x, nn)) as usize == x && low_byte(word_xnn(0x6000, x, nn)) == nn,
        nibble1(word_xnn(0x7000, x, nn)) == 0x7 && nibble2(word_xnn(0x7000, x, nn)) as usize == x && low_byte(word_xnn(0x7000, x, nn)) == nn,
        nibble1(word_xnn(0xc000, x, nn)) == 0xc && nibble2(word_xnn(0xc000, x, nn)) as usize == x && low_byte(word_xnn(0xc000, x, nn)) == nn,
        nibble1(word_xy(0x5000, x, y)) == 0x5 && nibble2(word_xy(0x5000, x, y)) as usize == x && nibble3(word_xy(0x5000, x, y)) as usize == y && nibble4(word_xy(0x5000, x, y)) == 0x0,
        nibble1(word_xy(0x9000, x, y)) == 0x9 && nibble2(word_xy(0x9000, x, y)) as usize == x && nibble3(word_xy(0x9000, x, y)) as usize == y && nibble4(word_xy(0x9000, x, y)) == 0x0,
        nibble1(word_xy(0x8000, x, y)) == 0x8 && nibble2(word_xy(0x8000, x, y)) as usize == x && nibble3(word_xy(0x8000, x, y)) as usize == y && nibble4(word_xy(0x8000, x, y)) == 0x0,
        nibble1(word_xy(0x8001, x, y)) == 0x8 && nibble2(word_xy(0x8001, x, y)) as usize == x && nibble3(word_xy(0x8001, x, y)) as usize == y && nibble4(word_xy(0x8001, x, y)) == 0x1,
        nibble1(word_xy(0x8002, x, y)) == 0x8 && nibble2(word_xy(0x8002, x, y)) as usize == x && nibble3(word_xy(0x8002, x, y)) as usize == y && nibble4(word_xy(0x8002, x, y)) == 0x2,
        nibble1(word_xy(0x8003, x, y)) == 0x8 && nibble2(word_xy(0x8003, x, y)) as usize == x && nibble3(word_xy(0x8003, x, y)) as usize == y && nibble4(word_xy(0x8003, x, y)) == 0x3,
        nibble1(word_xy(0x8004, x, y)) == 0x8 && nibble2(word_xy(0x8004, x, y)) as usize == x && nibble3(word_xy(0x8004, x, y)) as usize == y && nibble4(word_xy(0x8004, x, y)) == 0x4,
        nibble1(word_xy(0x8005, x, y)) == 0x8 && nibble2(word_xy(0x8005, x, y)) as usize == x && nibble3(word_xy(0x8005, x, y)) as usize == y && nibble4(word_xy(0x8005, x, y)) == 0x5,
        nibble1(word_xy(0x8006, x, y)) == 0x8 && nibble2(word_xy(0x8006, x, y)) as usize == x && nibble3(word_xy(0x8006, x, y)) as usize == y && nibble4(word_xy(0x8006, x, y)) == 0x6,
        nibble1(word_xy(0x8007, x, y)) == 0x8 && nibble2(word_xy(0x8007, x, y)) as usize == x && nibble3(word_xy(0x8007, x, y)) as usize == y && nibble4(word_xy(0x8007, x, y)) == 0x7,
        nibble1(word_xy(0x800e, x, y)) == 0x8 && nibble2(word_xy(0x800e, x, y)) as usize == x && nibble3(word_xy(0x800e, x, y)) as usize == y && nibble4(word_xy(0x800e, x, y)) == 0xe,
        nibble1(word_xyn(0xd000, x, y, n)) == 0xd && nibble2(word_xyn(0xd000, x, y, n)) as usize == x && nibble3(word_xyn(0xd000, x, y, n)) as usize == y && nibble4(word_xyn(0xd000, x, y, n)) == n,
        nibble1(word_x(0xe09e, x)) == 0xe && nibble2(word_x(0xe09e, x)) as usize == x && nibble3(word_x(0xe09e, x)) == 0x9 && nibble4(word_x(0xe09e, x)) == 0xe,
        nibble1(word_x(0xe0a1, x)) == 0xe && nibble2(word_x(0xe0a1, x)) as usize == x && nibble3(word_x(0xe0a1, x)) == 0xa && nibble4(word_x(0xe0a1, x)) == 0x1,
        nibble1(word_x(0xf007, x)) == 0xf && nibble2(word_x(0xf007, x)) as usize == x && nibble3(word_x(0xf007, x)) == 0x0 && nibble4(word_x(0xf007, x)) == 0x7,
        nibble1(word_x(0xf00a, x)) == 0xf && nibble2(word_x(0xf00a, x)) as usize == x && nibble3(word_x(0xf00a, x)) == 0x0 && nibble4(word_x(0xf00a, x)) == 0xa,
        nibble1(word_x(0xf015, x)) == 0xf && nibble2(word_x(0xf015, x)) as usize == x && nibble3(word_x(0xf015, x)) == 0x1 && nibble4(word_x(0xf015, x)) == 0x5,
        nibble1(word_x(0xf018, x)) == 0xf && nibble2(word_x(0xf018, x)) as usize == x && nibble3(word_x(0xf018, x)) == 0x1 && nibble4(word_x(0xf018, x)) == 0x8,
        nibble1(word_x(0xf01e, x)) == 0xf && nibble2(word_x(0xf01e, x)) as usize == x && nibble3(word_x(0xf01e, x)) == 0x1 && nibble4(word_x(0xf01e, x)) == 0xe,
        nibble1(word_x(0xf029, x)) == 0xf && nibble2(word_x(0xf029, x)) as usize == x && nibble3(word_x(0xf029, x)) == 0x2 && nibble4(word_x(0xf029, x)) == 0x9,
        nibble1(word_x(0xf033, x)) == 0xf && nibble2(word_x(0xf033, x)) as usize == x && nibble3(word_x(0xf033, x)) == 0x3 && nibble4(word_x(0xf033, x)) == 0x3,
        nibble1(word_x(0xf055, x)) == 0xf && nibble2(word_x(0xf055, x)) as usize == x && nibble3(word_x(0xf055, x)) == 0x5 && nibble4(word_x(0xf055, x)) == 0x5,
        nibble1(word_x(0xf065, x)) == 0xf && nibble2(word_x(0xf065, x)) as usize == x && nibble3(word_x(0xf065, x)) == 0x6 && nibble4(word_x(0xf065, x)) == 0x5,
        nibble1(0x0000u16) == 0x0 && nibble2(0x0000u16) == 0x0 && nibble3(0x0000u16) == 0x0 && nibble4(0x0000u16) == 0x0,
        nibble1(0x00e0u16) == 0x0 && nibble2(0x00e0u16) == 0x0 && nibble3(0x00e0u16) == 0xe && nibble4(0x00e0u16) == 0x0,
        nibble1(0x00eeu16) == 0x0 && nibble2(0x00eeu16) == 0x0 && nibble3(0x00eeu16) == 0xe && nibble4(0x00eeu16) == 0xe,
{
}

/// Decoding is total, and the word of the operation that it gives is the
/// word that was decoded: no two words decode to the same operation.
pub proof fn lemma_decode_then_encode(opcode: u16)
    ensures
        decode(opcode).encoding() == opcode,
        decode(opcode).canonical(),
{
    lemma_rebuild(opcode);
}

/// Every operation that some word decodes to is decoded from its own word.
pub proof fn lemma_encode_then_decode(instruction: Instruction)
    requires
        instruction.canonical(),
    ensures
        decode(instruction.encoding()) == instruction,
{
    match instruction {
        Instruction::Nop | Instruction::ClearScreen | Instruction::Ret => {
            lemma_take_apart(0, 0, 0, 0, 0);
        },
        Instruction::Jump { nnn }
        | Instruction::JumpPlusV0 { nnn }
        | Instruction::Call { nnn }
        | Instruction::SetI { nnn } => {
            lemma_take_apart(0, 0, 0, 0, nnn);
        },
        Instruction::SkipVxEqNN { x, nn }
        | Instruction::SkipVxNeqNN { x, nn }
        | Instruction::SetVxNN { x, nn }
        | Instruction::SetVxRnd { x, nn }
        | Instruction::AddVxNN { x, nn } => {
            lemma_take_apart(x, 0, 0, nn, 0);
        },
        Instruction::SkipVxEqVy { x, y }
        | Instruction::SkipVxNeqVy { x, y }
        | Instruction::SetVxVy { x, y }
        | Instruction::AddVxVy { x, y }
        | Instruction::SubVxVy { x, y }
        | Instruction::SubVyVx { x, y }
        | Instruction::OrVxVy { x, y }
        | Instruction::AndVxVy { x, y }
        | Instruction::XorVxVy { x, y }
        | Instruction::RShiftVx { x, y }
        | Instruction::LShiftVx { x, y } => {
            lemma_take_apart(x, y, 0, 0, 0);
        },
        Instruction::SetVxDt { x }
        | Instruction::SetVxKey { x }
        | Instruction::SetVxFontToI { x }
        | Instruction::SetVxBcdToI { x }
        | Instruction::SetDtVx { x }
        | Instruction::SetStVx { x }
        | Instruction::AddVxToI { x }
        | Instruction::SkipVxDown { x }
        | Instruction::SkipVxUp { x }
        | Instruction::SaveVx { x }
        | Instruction::LoadVx { x } => {
            lemma_take_apart(x, 0, 0, 0, 0);
        },
        Instruction::Draw { x, y, n } => {
            lemma_take_apart(x, y, n, 0, 0);
        },
        Instruction::Unknown { opcode } => {},
    }
}

/// An operation that a word decodes to names only registers that exist.
pub proof fn lemma_decoded_registers_exist(opcode: u16)
    ensures
        decode(opcode).missing_register() is None,
{
    lemma_decode_then_encode(opcode);
}

/// The parts of a word in arithmetic: the nibbles are the four hexadecimal
/// digits of the word, the address is the word without its first digit, and
/// the byte is its last two digits.
pub proof fn lemma_parts_of_word(opcode: u16)
    by (bit_vector)
    ensures
        nibble1(opcode) == opcode / 4096,
        nibble2(opcode) == (opcode / 256) % 16,
        nibble3(opcode) == (opcode / 16) % 16,
        nibble4(opcode) == opcode % 16,
        low_twelve(opcode) == opcode % 4096,
        low_byte(opcode) == opcode % 256,
{
}

/// A word in arithmetic: operands that fit their places are the digits of
/// the word that the pattern leaves open.
pub proof fn lemma_word_of_operands(pattern: u16, x: usize, y: usize, n: u8, nn: u8, nnn: u16)
    by (bit_vector)
    requires
        x < 16,
        y < 16,
        n < 16,
        nnn < 0x1000,
    ensures
        pattern & 0x0FFF == 0 ==> word_nnn(pattern, nnn) == pattern + nnn,
        pattern & 0x0FFF == 0 ==> word_xnn(pattern, x, nn) == pattern + 256 * x + nn,
        pattern & 0x0FFF == 0 ==> word_xyn(pattern, x, y, n) == pattern + 256 * x + 16 * y + n,
        pattern & 0x0FF0 == 0 ==> word_xy(pattern, x, y) == pattern + 256 * x + 16 * y,
        pattern & 0x0F00 == 0 ==> word_x(pattern, x) == pattern + 256 * x,
{
}

} // verus!
