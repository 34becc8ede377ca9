//! Static configuration of the machine: clock frequencies, RNG seed and the
//! quirk toggles. Read-only for the lifetime of a run.

use vstd::prelude::*;

verus! {

#[derive(Clone, Copy)]
pub struct Settings {
    /// Where the ROM image is loaded in memory.
    pub rom_addr: u16,
    pub cpu_freq: u16,
    pub dt_freq: u16,
    pub st_freq: u16,
    pub rng_seed: u32,
    /// Some games expect STRR (FX55) and LDRR (FX65) to increment the I
    /// register; when true, I is incremented by x+1 after the operation.
    pub load_store_quirk: bool,
    /// Some games expect SHR (8XY6) and SHL (8XYE) to always shift Vx and
    /// ignore Vy; when true, the first register is shifted in place.
    pub shift_quirk: bool,
    /// Some games expect ADDA (FX1E) to set VF when the 16-bit addition
    /// overflows; when true, VF is written, otherwise it is left untouched.
    pub address_overflow_quirk: bool,
    /// Wrap sprite rows that fall past the bottom edge instead of clipping.
    pub vertical_wrap: bool,
    /// Suppress audible output regardless of the sound timer state.
    pub mute: bool,
    /// Dump the ROM image after loading (handled outside the core).
    pub print_rom: bool,
    /// Trace each executed opcode (handled outside the core).
    pub print_opcodes: bool,
}

impl Settings {
    pub fn new() -> (s: Self)
        ensures
            s.rom_addr == 0x200,
            s.cpu_freq == 700,
            s.dt_freq == 60,
            s.st_freq == 60,
            s.rng_seed == 0,
            !s.load_store_quirk,
            s.shift_quirk,
            !s.address_overflow_quirk,
            !s.vertical_wrap,
            !s.mute,
            !s.print_rom,
            !s.print_opcodes,
    {
        Self {
            rom_addr: 0x200,
            cpu_freq: 700,
            dt_freq: 60,
            st_freq: 60,
            rng_seed: 0,
            load_store_quirk: false,
            shift_quirk: true,
            address_overflow_quirk: false,
            vertical_wrap: false,
            mute: false,
            print_rom: false,
            print_opcodes: false,
        }
    }
}

} // verus!
