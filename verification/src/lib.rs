//! A verified CHIP-8 core: the instruction decoder, the fetch-decode-execute
//! engine, the 4096-byte memory, the monochrome XOR framebuffer, the keyboard
//! latch, the timers and the seeded random generator.
//!
//! The windowing, audio and input backend is an external collaborator; the
//! core works on plain values (key state arrays, nanosecond counts, ROM byte
//! vectors) that the surrounding program supplies.

pub mod clk;
pub mod cpu;
pub mod dsp;
pub mod kbd;
pub mod machine;
pub mod mem;
pub mod op;
pub mod rng;
pub mod settings;
