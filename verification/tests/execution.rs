use chip8::cpu::CPU;
use chip8::dsp::Display;
use chip8::machine::Machine;
use chip8::mem::Memory;
use chip8::settings::Settings;

#[test]
fn addr_sets_carry_iff_sum_exceeds_255() {
    let mut cpu = CPU::new();
    cpu.v[0] = 200;
    cpu.v[1] = 100;
    cpu.addr(0, 1);
    assert_eq!(cpu.v[0], 44); // 300 mod 256
    assert_eq!(cpu.v[0xF], 1);

    let mut cpu = CPU::new();
    cpu.v[0] = 200;
    cpu.v[1] = 55;
    cpu.addr(0, 1);
    assert_eq!(cpu.v[0], 255);
    assert_eq!(cpu.v[0xF], 0);
}

#[test]
fn sub_sets_vf_iff_no_borrow() {
    let mut cpu = CPU::new();
    cpu.v[2] = 10;
    cpu.v[3] = 3;
    cpu.sub(2, 3);
    assert_eq!(cpu.v[2], 7);
    assert_eq!(cpu.v[0xF], 1);

    let mut cpu = CPU::new();
    cpu.v[2] = 3;
    cpu.v[3] = 10;
    cpu.sub(2, 3);
    assert_eq!(cpu.v[2], 249); // -7 mod 256
    assert_eq!(cpu.v[0xF], 0);
}

#[test]
fn subn_sets_vf_iff_no_borrow() {
    let mut cpu = CPU::new();
    cpu.v[2] = 3;
    cpu.v[3] = 10;
    cpu.subn(2, 3);
    assert_eq!(cpu.v[2], 7);
    assert_eq!(cpu.v[0xF], 1);

    let mut cpu = CPU::new();
    cpu.v[2] = 10;
    cpu.v[3] = 3;
    cpu.subn(2, 3);
    assert_eq!(cpu.v[2], 249);
    assert_eq!(cpu.v[0xF], 0);
}

#[test]
fn add_immediate_never_touches_vf() {
    let mut cpu = CPU::new();
    cpu.v[4] = 0xFF;
    cpu.v[0xF] = 0x5A;
    cpu.add(4, 2);
    assert_eq!(cpu.v[4], 1);
    assert_eq!(cpu.v[0xF], 0x5A);
}

#[test]
fn shift_quirk_changes_source_never_destination() {
    let mut quirk_on = Settings::new();
    quirk_on.shift_quirk = true;
    let mut quirk_off = Settings::new();
    quirk_off.shift_quirk = false;

    // quirk on: V1 is shifted in place, V2 ignored
    let mut cpu = CPU::new();
    cpu.v[1] = 0b1010_0101;
    cpu.v[2] = 0b1111_0000;
    cpu.shr(1, 2, &quirk_on);
    assert_eq!(cpu.v[1], 0b0101_0010);
    assert_eq!(cpu.v[0xF], 1);
    assert_eq!(cpu.v[2], 0b1111_0000);

    // quirk off: V2's value is shifted, stored in V1
    let mut cpu = CPU::new();
    cpu.v[1] = 0b1010_0101;
    cpu.v[2] = 0b1111_0000;
    cpu.shr(1, 2, &quirk_off);
    assert_eq!(cpu.v[1], 0b0111_1000);
    assert_eq!(cpu.v[0xF], 0);
    assert_eq!(cpu.v[2], 0b1111_0000);

    // same for the left shift
    let mut cpu = CPU::new();
    cpu.v[1] = 0b1010_0101;
    cpu.v[2] = 0b0000_1111;
    cpu.shl(1, 2, &quirk_on);
    assert_eq!(cpu.v[1], 0b0100_1010);
    assert_eq!(cpu.v[0xF], 1);

    let mut cpu = CPU::new();
    cpu.v[1] = 0b1010_0101;
    cpu.v[2] = 0b0000_1111;
    cpu.shl(1, 2, &quirk_off);
    assert_eq!(cpu.v[1], 0b0001_1110);
    assert_eq!(cpu.v[0xF], 0);
}

#[test]
fn adda_quirk_controls_vf() {
    let mut s = Settings::new();
    s.address_overflow_quirk = false;
    let mut cpu = CPU::new();
    cpu.i = 0xFFFF;
    cpu.v[0] = 2;
    cpu.v[0xF] = 0x77;
    cpu.adda(0, &s);
    assert_eq!(cpu.i, 1);
    assert_eq!(cpu.v[0xF], 0x77); // untouched without the quirk

    s.address_overflow_quirk = true;
    let mut cpu = CPU::new();
    cpu.i = 0xFFFF;
    cpu.v[0] = 2;
    cpu.adda(0, &s);
    assert_eq!(cpu.i, 1);
    assert_eq!(cpu.v[0xF], 1);

    let mut cpu = CPU::new();
    cpu.i = 0x100;
    cpu.v[0] = 2;
    cpu.adda(0, &s);
    assert_eq!(cpu.i, 0x102);
    assert_eq!(cpu.v[0xF], 0);
}

#[test]
fn load_store_quirk_controls_i() {
    let mut s = Settings::new();
    s.load_store_quirk = false;
    let mut cpu = CPU::new();
    let mut mem = Memory::new();
    cpu.i = 0x300;
    cpu.v[0] = 0xAA;
    cpu.v[1] = 0xBB;
    cpu.v[2] = 0xCC;
    cpu.strr(2, &mut mem, &s);
    assert_eq!(mem.read(0x300), 0xAA);
    assert_eq!(mem.read(0x301), 0xBB);
    assert_eq!(mem.read(0x302), 0xCC);
    assert_eq!(cpu.i, 0x300);

    s.load_store_quirk = true;
    let mut cpu = CPU::new();
    cpu.i = 0x300;
    cpu.ldrr(2, &mem, &s);
    assert_eq!(cpu.v[0], 0xAA);
    assert_eq!(cpu.v[1], 0xBB);
    assert_eq!(cpu.v[2], 0xCC);
    assert_eq!(cpu.v[3], 0);
    assert_eq!(cpu.i, 0x303);
}

#[test]
fn stdr_stores_decimal_digits() {
    let mut cpu = CPU::new();
    let mut mem = Memory::new();
    cpu.i = 0x400;
    cpu.v[5] = 254;
    cpu.stdr(5, &mut mem);
    assert_eq!(mem.read(0x400), 2);
    assert_eq!(mem.read(0x401), 5);
    assert_eq!(mem.read(0x402), 4);
}

#[test]
fn timers_never_underflow() {
    let mut cpu = CPU::new();
    cpu.dt = 2;
    cpu.st = 1;
    cpu.cycle_dt();
    cpu.cycle_dt();
    cpu.cycle_dt();
    cpu.cycle_dt();
    assert_eq!(cpu.dt, 0);
    assert!(!cpu.cycle_st());
    for _ in 0..10 {
        cpu.cycle_st();
    }
    assert_eq!(cpu.st, 0);
    assert_eq!(cpu.dt, 0);
}

#[test]
fn sound_timer_beeps_while_nonzero() {
    let mut cpu = CPU::new();
    cpu.st = 3;
    assert!(cpu.cycle_st()); // 2 left
    assert!(cpu.cycle_st()); // 1 left
    assert!(!cpu.cycle_st()); // 0 left
    assert!(!cpu.cycle_st());
}

#[test]
fn drw_draws_and_reports_collision() {
    let s = Settings::new();
    let mut cpu = CPU::new();
    let mut mem = Memory::new();
    let mut dsp = Display::new();
    mem.write(0x300, 0xF0);
    cpu.i = 0x300;
    cpu.v[0] = 0;
    cpu.v[1] = 0;
    cpu.drw(0, 1, 1, &mem, &mut dsp, &s);
    // a single 0xF0 row lights exactly the top-left four pixels
    for x in 0..8 {
        assert_eq!(dsp.pixel(x, 0), x < 4);
    }
    assert_eq!(cpu.v[0xF], 0);

    // drawing the same sprite again erases it and reports the collision
    cpu.drw(0, 1, 1, &mem, &mut dsp, &s);
    for x in 0..64 {
        for y in 0..32 {
            assert!(!dsp.pixel(x, y));
        }
    }
    assert_eq!(cpu.v[0xF], 1);
}

#[test]
fn drw_idempotence_restores_arbitrary_background() {
    let s = Settings::new();
    let mut cpu = CPU::new();
    let mut mem = Memory::new();
    let mut dsp = Display::new();
    // scatter a background
    dsp.set_pixel(1, 0, true);
    dsp.set_pixel(10, 4, true);
    dsp.set_pixel(63, 31, true);
    let before: Vec<bool> = (0..64 * 32).map(|i| dsp.pixel(i % 64, i / 64)).collect();
    mem.write(0x310, 0b1010_1010);
    mem.write(0x311, 0b0101_0101);
    cpu.i = 0x310;
    cpu.v[2] = 0;
    cpu.v[3] = 0;
    cpu.drw(2, 3, 2, &mem, &mut dsp, &s);
    cpu.drw(2, 3, 2, &mem, &mut dsp, &s);
    let after: Vec<bool> = (0..64 * 32).map(|i| dsp.pixel(i % 64, i / 64)).collect();
    assert_eq!(before, after);
    // the first draw set pixels on the empty cells, so the second erased
    assert_eq!(cpu.v[0xF], 1);
}

#[test]
fn drw_clips_rows_without_vertical_wrap() {
    let mut s = Settings::new();
    s.vertical_wrap = false;
    let mut cpu = CPU::new();
    let mut mem = Memory::new();
    let mut dsp = Display::new();
    mem.write(0x320, 0x80);
    mem.write(0x321, 0x80);
    cpu.i = 0x320;
    cpu.v[0] = 0;
    cpu.v[1] = 31; // second row would fall past the bottom edge
    cpu.drw(0, 1, 2, &mem, &mut dsp, &s);
    assert!(dsp.pixel(0, 31));
    assert!(!dsp.pixel(0, 0)); // clipped, not wrapped
}

#[test]
fn drw_wraps_rows_with_vertical_wrap() {
    let mut s = Settings::new();
    s.vertical_wrap = true;
    let mut cpu = CPU::new();
    let mut mem = Memory::new();
    let mut dsp = Display::new();
    mem.write(0x320, 0x80);
    mem.write(0x321, 0x80);
    cpu.i = 0x320;
    cpu.v[0] = 0;
    cpu.v[1] = 31;
    cpu.drw(0, 1, 2, &mem, &mut dsp, &s);
    assert!(dsp.pixel(0, 31));
    assert!(dsp.pixel(0, 0)); // wrapped to the top
}

#[test]
fn machine_runs_arithmetic_loop() {
    // CLS; LD V0,0x01; LD V1,0x02; ADD V0,V1; JP 0x200
    let rom: Vec<u8> = vec![0x00, 0xE0, 0x60, 0x01, 0x61, 0x02, 0x80, 0x14, 0x12, 0x00];
    let mut m = Machine::new(Settings::new());
    assert!(m.load_rom(&rom));
    for _ in 0..25 {
        assert!(m.step([false; 16]).is_ok());
        // the program counter cycles within the five-instruction loop
        assert!(m.cpu.pc >= 0x200 && m.cpu.pc <= 0x208);
        assert_eq!(m.cpu.pc % 2, 0);
    }
    assert_eq!(m.cpu.v[0], 3);
    assert_eq!(m.cpu.v[1], 2);
    assert_eq!(m.cpu.pc, 0x200); // 25 cycles is five whole loops
    for x in 0..64 {
        for y in 0..32 {
            assert!(!m.display.pixel(x, y));
        }
    }
}

#[test]
fn machine_draws_single_sprite_row() {
    // LDA 0x206; DRW V0 V1 1; JP 0x204 — sprite byte 0xF0 at 0x206
    let rom: Vec<u8> = vec![0xA2, 0x06, 0xD0, 0x11, 0x12, 0x04, 0xF0];
    let mut m = Machine::new(Settings::new());
    assert!(m.load_rom(&rom));
    assert!(m.step([false; 16]).is_ok());
    assert!(m.step([false; 16]).is_ok());
    for x in 0..64 {
        for y in 0..32 {
            assert_eq!(m.display.pixel(x, y), y == 0 && x < 4);
        }
    }
    assert_eq!(m.cpu.v[0xF], 0); // no collision on an empty display
    assert!(m.consume_redraw());
}

#[test]
fn machine_fatal_decode_error_reports_address_and_word() {
    let rom: Vec<u8> = vec![0x5F, 0xF1];
    let mut m = Machine::new(Settings::new());
    assert!(m.load_rom(&rom));
    let r = m.step([false; 16]);
    match r {
        Err(e) => {
            assert_eq!(e.addr, 0x200);
            assert_eq!(e.opcode, 0x5FF1);
        }
        Ok(()) => panic!("an undefined word must be fatal"),
    }
    // nothing changed: the same step fails identically
    assert_eq!(m.cpu.pc, 0x200);
    assert!(m.step([false; 16]).is_err());
}

#[test]
fn machine_key_wait_replays_instruction() {
    // LDKP V0
    let rom: Vec<u8> = vec![0xF0, 0x0A];
    let mut m = Machine::new(Settings::new());
    assert!(m.load_rom(&rom));
    // no key yet: the instruction re-executes
    assert!(m.step([false; 16]).is_ok());
    assert_eq!(m.cpu.pc, 0x200);
    assert!(m.step([false; 16]).is_ok());
    assert_eq!(m.cpu.pc, 0x200);
    // a key press while waiting is consumed on the next cycle
    m.push_key(0xB);
    assert!(m.step([false; 16]).is_ok());
    assert_eq!(m.cpu.pc, 0x202);
    assert_eq!(m.cpu.v[0], 0xB);
}

#[test]
fn machine_skip_reads_live_key_state() {
    // SKP V0; LD V1,0x11; LD V2,0x22
    let rom: Vec<u8> = vec![0xE0, 0x9E, 0x61, 0x11, 0x62, 0x22];
    let mut keys = [false; 16];
    keys[0] = true;
    let mut m = Machine::new(Settings::new());
    assert!(m.load_rom(&rom));
    assert!(m.step(keys).is_ok()); // key 0 down: skip LD V1
    assert_eq!(m.cpu.pc, 0x204);
    assert!(m.step(keys).is_ok());
    assert_eq!(m.cpu.v[1], 0);
    assert_eq!(m.cpu.v[2], 0x22);
}

#[test]
fn machine_call_and_ret() {
    // CALL 0x206; LD V1,0x11 (skipped); ...; at 0x206: LD V0,0x42; RET
    let rom: Vec<u8> = vec![0x22, 0x06, 0x61, 0x11, 0x00, 0x00, 0x60, 0x42, 0x00, 0xEE];
    let mut m = Machine::new(Settings::new());
    assert!(m.load_rom(&rom));
    assert!(m.step([false; 16]).is_ok());
    assert_eq!(m.cpu.pc, 0x206);
    assert_eq!(m.cpu.sp, 1);
    assert!(m.step([false; 16]).is_ok());
    assert_eq!(m.cpu.v[0], 0x42);
    assert!(m.step([false; 16]).is_ok()); // RET
    assert_eq!(m.cpu.pc, 0x202);
    assert_eq!(m.cpu.sp, 0);
}

#[test]
fn machine_timer_roundtrip_and_sound() {
    // LD V0,3; STST V0; STDT V0
    let rom: Vec<u8> = vec![0x60, 0x03, 0xF0, 0x18, 0xF0, 0x15];
    let mut m = Machine::new(Settings::new());
    assert!(m.load_rom(&rom));
    for _ in 0..3 {
        assert!(m.step([false; 16]).is_ok());
    }
    assert_eq!(m.cpu.st, 3);
    assert_eq!(m.cpu.dt, 3);
    assert!(m.tick_sound()); // 2 left, audible
    m.tick_delay();
    assert_eq!(m.cpu.dt, 2);
    assert!(m.tick_sound()); // 1 left
    assert!(!m.tick_sound()); // 0 left, silent
    assert!(!m.tick_sound());
    assert_eq!(m.cpu.st, 0);
}

#[test]
fn machine_mute_suppresses_beep() {
    let mut s = Settings::new();
    s.mute = true;
    let mut m = Machine::new(s);
    m.cpu.st = 5;
    assert!(!m.tick_sound());
    assert_eq!(m.cpu.st, 4); // the timer still runs
}

#[test]
fn machine_rejects_oversized_rom() {
    let rom: Vec<u8> = vec![0xFF; 0xE01];
    let mut m = Machine::new(Settings::new());
    assert!(!m.load_rom(&rom));
    assert_eq!(m.memory.read(0x200), 0); // nothing was loaded
    let rom: Vec<u8> = vec![0xAB; 0xE00];
    assert!(m.load_rom(&rom));
    assert_eq!(m.memory.read(0x200), 0xAB);
    assert_eq!(m.memory.read(0xFFF), 0xAB);
}

#[test]
fn machine_rnd_is_seed_deterministic() {
    // RND V0,0xFF
    let rom: Vec<u8> = vec![0xC0, 0xFF];
    let mut s = Settings::new();
    s.rng_seed = 12345;
    let mut a = Machine::new(s);
    let mut b = Machine::new(s);
    assert!(a.load_rom(&rom));
    assert!(b.load_rom(&rom));
    assert!(a.step([false; 16]).is_ok());
    assert!(b.step([false; 16]).is_ok());
    assert_eq!(a.cpu.v[0], b.cpu.v[0]);
}

#[test]
fn font_glyph_drawn_from_sprite_address() {
    // LD V0,1; LDSA V0; LD V1,0; LD V2,0; DRW V1 V2 5
    let rom: Vec<u8> = vec![0x60, 0x01, 0xF0, 0x29, 0x61, 0x00, 0x62, 0x00, 0xD1, 0x25];
    let mut m = Machine::new(Settings::new());
    assert!(m.load_rom(&rom));
    for _ in 0..5 {
        assert!(m.step([false; 16]).is_ok());
    }
    assert_eq!(m.cpu.i, 5);
    // glyph "1" first row is 0x20: a single pixel in column 2
    assert!(!m.display.pixel(0, 0));
    assert!(!m.display.pixel(1, 0));
    assert!(m.display.pixel(2, 0));
    assert!(!m.display.pixel(3, 0));
}
