//! The machine around the engine: fonts, program loading, the display,
//! the timers, and whole-cycle scenarios.
use chip8::Chip8Error;
use chip8::decode::Instr;
use chip8::input::InputSnapshot;
use chip8::machine::{Chip8, font_table};
use chip8::timer::{TICK_INTERVAL_NANOS, tick_due};

fn idle() -> InputSnapshot {
    InputSnapshot::idle()
}

fn pixel(m: &Chip8, px: usize, py: usize) -> bool {
    m.display[py * 64 + px]
}

#[test]
fn new_machine_starts_at_the_load_address() {
    let m = Chip8::new();
    assert_eq!(m.pc, 0x200);
    assert_eq!(m.sp, 0);
    assert_eq!(m.i, 0);
    assert!(m.mem.iter().all(|&b| b == 0));
    assert!(m.display.iter().all(|&p| !p));
    assert_eq!(m.mem.len(), 4096);
    assert_eq!(m.v.len(), 16);
    assert_eq!(m.stack.len(), 16);
    assert_eq!(m.display.len(), 64 * 32);
}

#[test]
fn font_table_holds_eighty_bytes() {
    let t = font_table();
    assert_eq!(t.len(), 80);
    // Glyph 0 and glyph F, as drawn.
    assert_eq!(&t[0..5], &[0xF0, 0x90, 0x90, 0x90, 0xF0]);
    assert_eq!(&t[75..80], &[0xF0, 0x80, 0xF0, 0x80, 0x80]);
}

#[test]
fn load_fonts_seeds_memory_at_0x50() {
    let mut m = Chip8::new();
    m.load_fonts();
    let t = font_table();
    assert_eq!(&m.mem[0x50..0xA0], &t[..]);
    assert_eq!(m.mem[0x4F], 0);
    assert_eq!(m.mem[0xA0], 0);
}

#[test]
fn font_addr_points_at_the_glyph_for_a() {
    // Load the font at 0x50, then ask for the glyph of digit 0xA:
    // I = 0x50 + 5 * 10 = 130, where that glyph's five bytes start.
    let mut m = Chip8::new();
    m.load_fonts();
    m.v[4] = 0xA;
    assert_eq!(m.execute(Instr::FontAddr(4), &idle(), 0), Ok(()));
    assert_eq!(m.i, 0x50 + 5 * 0xA);
    assert_eq!(m.i, 130);
    assert_eq!(
        &m.mem[m.i as usize..m.i as usize + 5],
        &[0xF0, 0x90, 0xF0, 0x90, 0x90]
    );
}

#[test]
fn load_rom_places_the_image_at_0x200() {
    let mut m = Chip8::new();
    let rom: Vec<u8> = vec![0x12, 0x34, 0x56];
    assert_eq!(m.load_rom(&rom), Ok(()));
    assert_eq!(&m.mem[0x200..0x203], &[0x12, 0x34, 0x56]);
    assert_eq!(m.mem[0x203], 0);
}

#[test]
fn load_rom_rejects_an_image_that_does_not_fit() {
    let mut m = Chip8::new();
    let big: Vec<u8> = vec![0xAB; 3585];
    assert_eq!(m.load_rom(&big), Err(Chip8Error::RomTooLarge));
    assert!(m.mem.iter().all(|&b| b == 0));
    let exact: Vec<u8> = vec![0xAB; 3584];
    assert_eq!(m.load_rom(&exact), Ok(()));
    assert_eq!(m.mem[4095], 0xAB);
}

#[test]
fn draw_toggles_pixels_and_reports_no_collision_on_dark_screen() {
    let mut m = Chip8::new();
    m.i = 0x300;
    m.mem[0x300] = 0b1010_0000;
    m.mem[0x301] = 0b0100_0000;
    m.v[0] = 4;
    m.v[1] = 6;
    assert_eq!(m.execute(Instr::Draw(0, 1, 2), &idle(), 0), Ok(()));
    assert_eq!(m.v[15], 0);
    assert!(pixel(&m, 4, 6));
    assert!(!pixel(&m, 5, 6));
    assert!(pixel(&m, 6, 6));
    assert!(pixel(&m, 5, 7));
    assert!(!pixel(&m, 4, 7));
}

#[test]
fn draw_collision_iff_a_lit_pixel_goes_dark() {
    let mut m = Chip8::new();
    m.i = 0x300;
    m.mem[0x300] = 0b1000_0000;
    m.v[0] = 10;
    m.v[1] = 10;
    assert_eq!(m.execute(Instr::Draw(0, 1, 1), &idle(), 0), Ok(()));
    assert_eq!(m.v[15], 0);
    assert!(pixel(&m, 10, 10));
    // The same sprite again: the pixel toggles off, so collision.
    assert_eq!(m.execute(Instr::Draw(0, 1, 1), &idle(), 0), Ok(()));
    assert_eq!(m.v[15], 1);
    assert!(!pixel(&m, 10, 10));
    // A sprite whose set bit lands on a dark cell next to a lit one: no
    // collision even though the screen is not empty.
    m.mem[0x300] = 0b0100_0000;
    m.mem[0x301] = 0b1000_0000;
    assert_eq!(m.execute(Instr::Draw(0, 1, 1), &idle(), 0), Ok(()));
    assert_eq!(m.v[15], 0);
}

#[test]
fn clear_then_clipped_draw_near_the_corner() {
    // Clear, then an 8x5 sprite at (60, 30): columns past x=63 and rows
    // past y=31 are clipped, nothing wraps, and no index goes out of
    // bounds.
    let mut m = Chip8::new();
    m.display[0] = true;
    assert_eq!(m.execute(Instr::Cls, &idle(), 0), Ok(()));
    assert!(m.display.iter().all(|&p| !p));
    m.i = 0x300;
    for row in 0..5 {
        m.mem[0x300 + row] = 0xFF;
    }
    m.v[6] = 60;
    m.v[7] = 30;
    assert_eq!(m.execute(Instr::Draw(6, 7, 5), &idle(), 0), Ok(()));
    assert_eq!(m.v[15], 0);
    let lit: usize = m.display.iter().filter(|&&p| p).count();
    // Four visible columns (60..=63) and two visible rows (30, 31).
    assert_eq!(lit, 8);
    for px in 60..64 {
        for py in 30..32 {
            assert!(pixel(&m, px, py));
        }
    }
    for px in 0..4 {
        for py in 0..2 {
            assert!(!pixel(&m, px, py));
        }
    }
}

#[test]
fn draw_coordinates_wrap_before_clipping() {
    // Vx = 74 starts at column 74 mod 64 = 10.
    let mut m = Chip8::new();
    m.i = 0x300;
    m.mem[0x300] = 0b1000_0000;
    m.v[0] = 74;
    m.v[1] = 33;
    assert_eq!(m.execute(Instr::Draw(0, 1, 1), &idle(), 0), Ok(()));
    assert!(pixel(&m, 10, 1));
}

#[test]
fn draw_reading_past_memory_is_a_fault() {
    let mut m = Chip8::new();
    m.i = 4095;
    assert_eq!(
        m.execute(Instr::Draw(0, 1, 2), &idle(), 0),
        Err(Chip8Error::MemoryAddressOutOfRange)
    );
    assert!(m.display.iter().all(|&p| !p));
}

#[test]
fn timer_decays_from_255_to_0_in_exactly_255_ticks() {
    let mut m = Chip8::new();
    m.delay_timer = 255;
    m.sound_timer = 255;
    for _ in 0..254 {
        m.tick_timers();
    }
    assert_eq!(m.delay_timer, 1);
    assert_eq!(m.sound_timer, 1);
    assert!(m.sound_active());
    m.tick_timers();
    assert_eq!(m.delay_timer, 0);
    assert_eq!(m.sound_timer, 0);
    assert!(!m.sound_active());
    // Further ticks hold at zero.
    m.tick_timers();
    assert_eq!(m.delay_timer, 0);
}

#[test]
fn tick_is_due_only_after_the_configured_interval() {
    assert!(!tick_due(0));
    assert!(!tick_due(TICK_INTERVAL_NANOS - 1));
    assert!(tick_due(TICK_INTERVAL_NANOS));
    assert!(tick_due(TICK_INTERVAL_NANOS + 1));
}

#[test]
fn first_held_key_finds_the_lowest() {
    let inp = InputSnapshot::idle();
    assert_eq!(inp.first_held_key(), None);
    let mut inp = InputSnapshot::idle();
    inp.held[0xD] = true;
    inp.held[0x3] = true;
    assert_eq!(inp.first_held_key(), Some(0x3));
}

#[test]
fn whole_program_runs_through_cycles() {
    // 6105: V1 = 5; 7103: V1 += 3; 1200: jump back to the start.
    let mut m = Chip8::new();
    let rom: Vec<u8> = vec![0x61, 0x05, 0x71, 0x03, 0x12, 0x00];
    assert_eq!(m.load_rom(&rom), Ok(()));
    assert_eq!(m.cycle(&idle()), Ok(()));
    assert_eq!(m.v[1], 5);
    assert_eq!(m.pc, 0x202);
    assert_eq!(m.cycle(&idle()), Ok(()));
    assert_eq!(m.v[1], 8);
    assert_eq!(m.pc, 0x204);
    assert_eq!(m.cycle(&idle()), Ok(()));
    assert_eq!(m.pc, 0x200);
}
