//! The whole machine: settings, memory, display, keyboard, processor and
//! random generator wired together.
//!
//! The outer program owns the event loop and the clocks; on each due tick
//! it calls one of the methods here, which perform the timer steps and the
//! CPU cycles. Everything the backend needs — which pixels to draw, whether
//! to sound the tone — comes back as plain values.

use vstd::prelude::*;

use crate::cpu::CPU;
use crate::cpu::CycleError;
use crate::cpu::fetch_word;
use crate::cpu::step_rel;
use crate::dsp::Display;
use crate::kbd::Keyboard;
use crate::mem::Memory;
use crate::mem::MEM_SIZE;
use crate::op::defined;
use crate::rng::RNG;
use crate::settings::Settings;

verus! {

/// The base address at which a ROM image is loaded.
pub const ROM_BASE: usize = 0x200;

/// The largest ROM image the address space can hold.
pub const MAX_ROM_BYTES: usize = 0xE00;

pub struct Machine {
    pub settings: Settings,
    pub memory: Memory,
    pub display: Display,
    pub keyboard: Keyboard,
    pub cpu: CPU,
    pub rng: RNG,
}

impl Machine {
    /// A machine at power-on under the given settings: font in memory,
    /// empty display, cleared registers, generator seeded from the
    /// settings.
    pub fn new(settings: Settings) -> (m: Self)
        ensures
            m.settings == settings,
            forall|a: int|
                crate::mem::FONT_BYTES <= a < MEM_SIZE ==> m.memory.bytes@[a] == 0,
            forall|a: int|
                0 <= a < crate::mem::FONT_BYTES ==> m.memory.bytes@[a] == crate::mem::font_data()[a],
            forall|px: int| 0 <= px < crate::dsp::DISPLAY_PIXELS ==> !m.display.pixels@[px],
            m.display.redraw,
            forall|k: int| 0 <= k < 16 ==> !m.keyboard.keys@[k],
            m.keyboard.kp is None,
            !m.keyboard.kp_wait,
            forall|r: int| 0 <= r < 16 ==> m.cpu.v@[r] == 0,
            m.cpu.i == 0,
            m.cpu.pc == 0x200,
            m.cpu.sp == 0,
            forall|s: int| 0 <= s < 16 ==> m.cpu.stack@[s] == 0,
            m.cpu.dt == 0,
            m.cpu.st == 0,
            m.rng.seed == settings.rng_seed,
    {
        Self {
            memory: Memory::new(),
            display: Display::new(),
            keyboard: Keyboard::new(),
            cpu: CPU::new(),
            rng: RNG::new(settings.rng_seed),
            settings,
        }
    }

    /// Load a ROM image at the ROM base address.
    ///
    /// An image too large for the address space is rejected whole — the
    /// machine must not start execution with a partially loaded ROM — and
    /// nothing changes. Otherwise every image byte lands at its offset
    /// from the base and the rest of memory is untouched.
    pub fn load_rom(&mut self, rom: &Vec<u8>) -> (loaded: bool)
        ensures
            loaded == (rom@.len() <= MAX_ROM_BYTES),
            final(self).settings == old(self).settings,
            final(self).display == old(self).display,
            final(self).keyboard == old(self).keyboard,
            final(self).cpu == old(self).cpu,
            final(self).rng == old(self).rng,
            !loaded ==> final(self).memory == old(self).memory,
            loaded ==> forall|a: int|
                0 <= a < MEM_SIZE ==> final(self).memory.bytes@[a] == if ROM_BASE <= a < ROM_BASE
                    + rom@.len() {
                    rom@[a - ROM_BASE]
                } else {
                    old(self).memory.bytes@[a]
                },
    {
        if rom.len() > MAX_ROM_BYTES {
            return false;
        }
        let mut k: usize = 0;
        while k < rom.len()
            invariant
                k <= rom@.len(),
                rom@.len() <= MAX_ROM_BYTES,
                *self == (Machine { memory: self.memory, ..*old(self) }),
                forall|a: int|
                    0 <= a < MEM_SIZE ==> self.memory.bytes@[a] == if ROM_BASE <= a < ROM_BASE
                        + k {
                        rom@[a - ROM_BASE]
                    } else {
                        old(self).memory.bytes@[a]
                    },
            decreases rom@.len() - k,
        {
            self.memory.write((ROM_BASE + k) as u16, rom[k]);
            k = k + 1;
        }
        true
    }

    /// One tick of the sound-timer clock: step the timer and report
    /// whether the tone should sound, muted by configuration.
    pub fn tick_sound(&mut self) -> (beep: bool)
        ensures
            final(self).cpu == (CPU {
                st: if old(self).cpu.st > 0 {
                    (old(self).cpu.st - 1) as u8
                } else {
                    0
                },
                ..old(self).cpu
            }),
            beep == (final(self).cpu.st > 0 && !old(self).settings.mute),
            final(self).settings == old(self).settings,
            final(self).memory == old(self).memory,
            final(self).display == old(self).display,
            final(self).keyboard == old(self).keyboard,
            final(self).rng == old(self).rng,
    {
        let beeping = self.cpu.cycle_st();
        beeping && !self.settings.mute
    }

    /// One tick of the delay-timer clock.
    pub fn tick_delay(&mut self)
        ensures
            final(self).cpu == (CPU {
                dt: if old(self).cpu.dt > 0 {
                    (old(self).cpu.dt - 1) as u8
                } else {
                    0
                },
                ..old(self).cpu
            }),
            final(self).settings == old(self).settings,
            final(self).memory == old(self).memory,
            final(self).display == old(self).display,
            final(self).keyboard == old(self).keyboard,
            final(self).rng == old(self).rng,
    {
        self.cpu.cycle_dt();
    }

    /// Record an asynchronous key press for the blocking key-input opcode.
    pub fn push_key(&mut self, key: u8)
        ensures
            final(self).keyboard.kp == if old(self).keyboard.kp_wait {
                Some(key)
            } else {
                old(self).keyboard.kp
            },
            final(self).keyboard.keys == old(self).keyboard.keys,
            final(self).keyboard.kp_wait == old(self).keyboard.kp_wait,
            final(self).settings == old(self).settings,
            final(self).memory == old(self).memory,
            final(self).display == old(self).display,
            final(self).cpu == old(self).cpu,
            final(self).rng == old(self).rng,
    {
        self.keyboard.push_keypress(key);
    }

    /// One CPU-clock tick: refresh the key states from the input source,
    /// then run one fetch-decode-execute cycle. A fatal decode failure is
    /// surfaced unchanged.
    pub fn step(&mut self, keys: [bool; 16]) -> (r: Result<(), CycleError>)
        ensures
            ({
                let k1 = Keyboard { keys, ..old(self).keyboard };
                &&& r is Ok <==> defined(fetch_word(old(self).cpu, old(self).memory.bytes@))
                &&& final(self).settings == old(self).settings
                &&& r is Ok ==> step_rel(
                    old(self).cpu,
                    final(self).cpu,
                    old(self).memory,
                    final(self).memory,
                    old(self).display,
                    final(self).display,
                    k1,
                    final(self).keyboard,
                    old(self).rng.seed,
                    final(self).rng.seed,
                    old(self).settings,
                )
                &&& r is Err ==> {
                    &&& final(self).cpu == old(self).cpu
                    &&& final(self).memory == old(self).memory
                    &&& final(self).display == old(self).display
                    &&& final(self).keyboard == k1
                    &&& final(self).rng == old(self).rng
                    &&& r == Err::<(), CycleError>(
                        CycleError {
                            addr: old(self).cpu.pc,
                            opcode: fetch_word(old(self).cpu, old(self).memory.bytes@),
                        },
                    )
                }
            }),
    {
        self.keyboard.set_keys(keys);
        let settings = self.settings;
        self.cpu.cycle(
            &mut self.memory,
            &mut self.display,
            &mut self.keyboard,
            &mut self.rng,
            &settings,
        )
    }

    /// Report and clear the display's redraw-needed flag.
    pub fn consume_redraw(&mut self) -> (r: bool)
        ensures
            r == old(self).display.redraw,
            !final(self).display.redraw,
            final(self).display.pixels == old(self).display.pixels,
            final(self).settings == old(self).settings,
            final(self).memory == old(self).memory,
            final(self).keyboard == old(self).keyboard,
            final(self).cpu == old(self).cpu,
            final(self).rng == old(self).rng,
    {
        self.display.consume_dirty()
    }
}

} // verus!
