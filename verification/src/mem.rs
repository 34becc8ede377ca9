//! Flat 4096-byte address space.
//!
//! The built-in 16-glyph 4x5 pixel font occupies the first 80 bytes; the ROM
//! is loaded at offset 0x200 by the machine. Addresses are reduced modulo
//! 4096, so a register-computed address past the end of the space wraps
//! around instead of faulting.

use vstd::prelude::*;

verus! {

pub const MEM_SIZE: usize = 4096;

pub const FONT_GLYPHS: usize = 16;

pub const FONT_GLYPH_BYTES: usize = 5;

pub const FONT_BYTES: usize = 80;

/// The built-in font: one 4x5 glyph per hexadecimal digit, five bytes each,
/// the high nibble of every byte holding the four pixels of one row.
pub open spec fn font_data() -> Seq<u8> {
    seq![
        0xF0u8, 0x90, 0x90, 0x90, 0xF0, // 0
        0x20, 0x60, 0x20, 0x20, 0x70, // 1
        0xF0, 0x10, 0xF0, 0x80, 0xF0, // 2
        0xF0, 0x10, 0xF0, 0x10, 0xF0, // 3
        0x90, 0x90, 0xF0, 0x10, 0x10, // 4
        0xF0, 0x80, 0xF0, 0x10, 0xF0, // 5
        0xF0, 0x80, 0xF0, 0x90, 0xF0, // 6
        0xF0, 0x10, 0x20, 0x40, 0x40, // 7
        0xF0, 0x90, 0xF0, 0x90, 0xF0, // 8
        0xF0, 0x90, 0xF0, 0x10, 0xF0, // 9
        0xF0, 0x90, 0xF0, 0x90, 0x90, // A
        0xE0, 0x90, 0xE0, 0x90, 0xE0, // B
        0xF0, 0x80, 0x80, 0x80, 0xF0, // C
        0xE0, 0x90, 0x90, 0x90, 0xE0, // D
        0xF0, 0x80, 0xF0, 0x80, 0xF0, // E
        0xF0, 0x80, 0xF0, 0x80, 0x80, // F
    ]
}

pub struct Memory {
    pub bytes: [u8; MEM_SIZE],
}

impl Memory {
    /// Memory at machine start: the font in its low range, zero elsewhere.
    pub fn new() -> (m: Self)
        ensures
            forall|a: int| 0 <= a < FONT_BYTES ==> m.bytes@[a] == font_data()[a],
            forall|a: int| FONT_BYTES <= a < MEM_SIZE ==> m.bytes@[a] == 0,
    {
        let mut bytes: [u8; MEM_SIZE] = [0; MEM_SIZE];
        let font: [u8; FONT_BYTES] = [
            0xF0, 0x90, 0x90, 0x90, 0xF0, // 0
            0x20, 0x60, 0x20, 0x20, 0x70, // 1
            0xF0, 0x10, 0xF0, 0x80, 0xF0, // 2
            0xF0, 0x10, 0xF0, 0x10, 0xF0, // 3
            0x90, 0x90, 0xF0, 0x10, 0x10, // 4
            0xF0, 0x80, 0xF0, 0x10, 0xF0, // 5
            0xF0, 0x80, 0xF0, 0x90, 0xF0, // 6
            0xF0, 0x10, 0x20, 0x40, 0x40, // 7
            0xF0, 0x90, 0xF0, 0x90, 0xF0, // 8
            0xF0, 0x90, 0xF0, 0x10, 0xF0, // 9
            0xF0, 0x90, 0xF0, 0x90, 0x90, // A
            0xE0, 0x90, 0xE0, 0x90, 0xE0, // B
            0xF0, 0x80, 0x80, 0x80, 0xF0, // C
            0xE0, 0x90, 0x90, 0x90, 0xE0, // D
            0xF0, 0x80, 0xF0, 0x80, 0xF0, // E
            0xF0, 0x80, 0xF0, 0x80, 0x80, // F
        ];
        proof {
            assert(font@ =~= font_data());
        }
        let mut k: usize = 0;
        while k < 80
            invariant
                k <= 80,
                font@ =~= font_data(),
                forall|a: int| 0 <= a < k ==> bytes@[a] == font_data()[a],
                forall|a: int| k <= a < 4096 ==> bytes@[a] == 0,
            decreases 80 - k,
        {
            bytes[k] = font[k];
            k = k + 1;
        }
        Self { bytes }
    }

    /// Read the byte at `addr`, reduced modulo the 4096-byte space.
    pub fn read(&self, addr: u16) -> (b: u8)
        ensures
            b == self.bytes@[addr as int % 4096],
    {
        self.bytes[(addr % 4096) as usize]
    }

    /// Write the byte at `addr`, reduced modulo the 4096-byte space.
    pub fn write(&mut self, addr: u16, byte: u8)
        ensures
            final(self).bytes@ == old(self).bytes@.update(addr as int % 4096, byte),
    {
        self.bytes[(addr % 4096) as usize] = byte;
    }

    /// The address of the font glyph for a hexadecimal digit. Only the low
    /// nibble of `digit` selects the glyph, so every argument maps into the
    /// font range.
    pub fn sprite_address(digit: u8) -> (addr: u16)
        ensures
            addr == FONT_GLYPH_BYTES * (digit % 16) as int,
            addr < FONT_BYTES,
    {
        (FONT_GLYPH_BYTES as u16) * ((digit % 16) as u16)
    }
}

} // verus!
