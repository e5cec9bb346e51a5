use vstd::prelude::*;

verus! {

/// Number of bytes of one glyph.
pub const GLYPH_SIZE: usize = 5;

/// Number of bytes of the font table: sixteen glyphs of five bytes each.
pub const FONTSET_SIZE: usize = 80;

/// The glyphs of the hexadecimal digits 0 to F, in that order. Each glyph is
/// five rows of eight pixels, of which the left four are used.
pub const FONTSET: [u8; 80] = [
    0xF0, 0x90, 0x90, 0x90, 0xF0,
    0x60, 0x20, 0x20, 0x20, 0x70,
    0xF0, 0x10, 0xF0, 0x80, 0xF0,
    0xF0, 0x10, 0xF0, 0x10, 0xF0,
    0xA0, 0xA0, 0xF0, 0x20, 0x20,
    0xF0, 0x80, 0xF0, 0x10, 0xF0,
    0xF0, 0x80, 0xF0, 0x90, 0xF0,
    0xF0, 0x10, 0x20, 0x40, 0x40,
    0xF0, 0x90, 0xF0, 0x90, 0xF0,
    0xF0, 0x90, 0xF0, 0x10, 0xF0,
    0xF0, 0x90, 0xF0, 0x90, 0x90,
    0xE0, 0x90, 0xE0, 0x90, 0xE0,
    0xF0, 0x80, 0x80, 0x80, 0xF0,
    0xE0, 0x90, 0x90, 0x90, 0xE0,
    0xF0, 0x80, 0xF0, 0x80, 0xF0,
    0xF0, 0x80, 0xF0, 0x80, 0x80,
];

/// The address of the glyph of the digit `digit`, with the font table at the
/// start of memory.
pub open spec fn glyph_address(digit: u8) -> u16 {
    (digit * 5) as u16
}

/// The glyphs stand in the table in the order of their digits, five bytes
/// each: the glyph of every digit lies within the table.
pub proof fn lemma_glyph_in_table(digit: u8)
    requires
        digit < 16,
    ensures
        glyph_address(digit) == 5 * digit,
        glyph_address(digit) + GLYPH_SIZE <= FONTSET_SIZE,
{
}

/// Copies the font table to the start of `ram`; the rest of `ram` stays.
pub fn seed_font(ram: &mut [u8; 4096])
    ensures
        forall|i: int| 0 <= i < 80 ==> final(ram)@[i] == FONTSET@[i],
        forall|i: int| 80 <= i < 4096 ==> final(ram)@[i] == old(ram)@[i],
    no_unwind
{
    let mut i: usize = 0;
    while i < FONTSET_SIZE
        invariant
            i <= 80,
            forall|k: int| 0 <= k < i ==> ram@[k] == FONTSET@[k],
            forall|k: int| i <= k < 4096 ==> ram@[k] == old(ram)@[k],
        decreases 80 - i,
    {
        ram[i] = FONTSET[i];
        i += 1;
    }
}

} // verus!
