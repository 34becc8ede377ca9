use chip8::clk::Clock;
use chip8::dsp::Display;
use chip8::kbd::Keyboard;
use chip8::mem::Memory;
use chip8::rng::RNG;
use chip8::settings::Settings;

#[test]
fn rng_first_byte_from_seed_zero() {
    // (48271 * 0 + 1) mod (2^31 - 1) == 1, and 1 mod 256 == 1
    let mut rng = RNG::new(0);
    assert_eq!(rng.next(), 1);
}

#[test]
fn rng_same_seed_same_sequence() {
    let mut a = RNG::new(0xDEAD_BEEF);
    let mut b = RNG::new(0xDEAD_BEEF);
    for _ in 0..64 {
        assert_eq!(a.next(), b.next());
    }
}

#[test]
fn rng_formula_exact() {
    // one step of the Lehmer generator from seed 1
    let mut rng = RNG::new(1);
    let byte = rng.next();
    let expected = (48271u64 * 1 + 1) % 2147483647;
    assert_eq!(byte, (expected % 256) as u8);
}

#[test]
fn clock_fires_once_per_period() {
    let mut c = Clock::new(1000, 0);
    assert_eq!(c.period_ns, 1_000_000);
    assert!(!c.tick(999_999));
    assert!(c.tick(1_000_000));
    assert!(!c.tick(1_000_001));
    assert!(c.tick(2_000_000));
}

#[test]
fn clock_advances_by_whole_periods_without_drift() {
    let mut c = Clock::new(1000, 0);
    // late check: due, and the reference point moves to 2ms, not to "now"
    assert!(c.tick(1_900_000));
    assert!(!c.tick(1_999_999));
    assert!(c.tick(2_000_000));
}

#[test]
fn keyboard_states_overwrite_and_read() {
    let mut kb = Keyboard::new();
    for k in 0..16 {
        assert!(!kb.get_key(k));
    }
    let mut keys = [false; 16];
    keys[0xA] = true;
    keys[0x0] = true;
    kb.set_keys(keys);
    assert!(kb.get_key(0xA));
    assert!(kb.get_key(0x0));
    assert!(!kb.get_key(0x1));
}

#[test]
fn keyboard_wait_protocol() {
    let mut kb = Keyboard::new();
    // first poll arms the wait and returns nothing
    assert_eq!(kb.wait_keypress(), None);
    // a press while unarmed would be ignored; while armed it is latched
    kb.push_keypress(0x7);
    assert_eq!(kb.wait_keypress(), Some(0x7));
    // consumed: the latch is cleared and the next poll re-arms
    assert_eq!(kb.wait_keypress(), None);
}

#[test]
fn keyboard_press_ignored_while_not_waiting() {
    let mut kb = Keyboard::new();
    kb.push_keypress(0x3);
    // arming now must not see the stale press
    assert_eq!(kb.wait_keypress(), None);
    assert_eq!(kb.wait_keypress(), None);
}

#[test]
fn display_set_pixel_xor_and_collision() {
    let mut d = Display::new();
    assert!(!d.set_pixel(5, 6, true));
    assert!(d.pixel(5, 6));
    // writing false leaves the bit alone and reports no erase
    assert!(!d.set_pixel(5, 6, false));
    assert!(d.pixel(5, 6));
    // writing true erases the lit pixel
    assert!(d.set_pixel(5, 6, true));
    assert!(!d.pixel(5, 6));
}

#[test]
fn display_wraparound() {
    // writing at (66, 0) is writing at (2, 0)
    let mut a = Display::new();
    let mut b = Display::new();
    a.set_pixel(66, 0, true);
    b.set_pixel(2, 0, true);
    for x in 0..64 {
        for y in 0..32 {
            assert_eq!(a.pixel(x, y), b.pixel(x, y));
        }
    }
    assert!(a.pixel(2, 0));
    let mut c = Display::new();
    c.set_pixel(64, 35, true);
    assert!(c.pixel(0, 3));
}

#[test]
fn display_dirty_flag() {
    let mut d = Display::new();
    // the first frame still needs presenting
    assert!(d.consume_dirty());
    assert!(!d.consume_dirty());
    // a write that changes nothing requests no redraw
    d.set_pixel(1, 1, false);
    assert!(!d.consume_dirty());
    // a toggle requests exactly one redraw
    d.set_pixel(1, 1, true);
    assert!(d.consume_dirty());
    assert!(!d.consume_dirty());
    d.clear();
    assert!(d.consume_dirty());
}

#[test]
fn display_height() {
    let d = Display::new();
    assert_eq!(d.height(), 32);
}

#[test]
fn memory_read_write_and_masking() {
    let mut m = Memory::new();
    m.write(0x300, 0xAB);
    assert_eq!(m.read(0x300), 0xAB);
    // addresses reduce modulo 4096
    assert_eq!(m.read(0x300 + 4096), 0xAB);
    m.write(0x1000, 0x55);
    assert_eq!(m.read(0x000), 0x55);
}

#[test]
fn memory_font_glyphs() {
    let m = Memory::new();
    // glyph "0" starts the font
    assert_eq!(m.read(0), 0xF0);
    assert_eq!(m.read(1), 0x90);
    assert_eq!(m.read(4), 0xF0);
    // glyph addresses step by five bytes; only the low nibble selects
    assert_eq!(Memory::sprite_address(0x0), 0);
    assert_eq!(Memory::sprite_address(0x1), 5);
    assert_eq!(Memory::sprite_address(0xF), 75);
    assert_eq!(Memory::sprite_address(0x12), 10);
    // glyph "F" is F0 80 F0 80 80
    let f = Memory::sprite_address(0xF);
    assert_eq!(m.read(f), 0xF0);
    assert_eq!(m.read(f + 4), 0x80);
    // everything past the font starts zeroed
    assert_eq!(m.read(80), 0);
    assert_eq!(m.read(0xFFF), 0);
}

#[test]
fn settings_defaults() {
    let s = Settings::new();
    assert_eq!(s.rom_addr, 0x200);
    assert_eq!(s.cpu_freq, 700);
    assert_eq!(s.dt_freq, 60);
    assert_eq!(s.st_freq, 60);
    assert_eq!(s.rng_seed, 0);
    assert!(!s.load_store_quirk);
    assert!(s.shift_quirk);
    assert!(!s.address_overflow_quirk);
    assert!(!s.vertical_wrap);
    assert!(!s.mute);
    assert!(!s.print_rom);
    assert!(!s.print_opcodes);
}
