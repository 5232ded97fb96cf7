use chip8_engine::emulator::Chip8;
use chip8_engine::screen::Screen;
use chip8_engine::screen::SCREEN_WIDTH;

fn boot(rom: &[u8]) -> Chip8 {
    let mut m = Chip8::new();
    m.load_rom(rom);
    m
}

fn run(m: &mut Chip8, cycles: usize) {
    for _ in 0..cycles {
        m.tick();
    }
}

fn lit(m: &Chip8, x: usize, y: usize) -> bool {
    m.get_screen()[x + SCREEN_WIDTH * y]
}

#[test]
fn screen_starts_blank_and_resets() {
    let mut s = Screen::new();
    assert!(!s.get_pixel(0, 0));
    s.set_pixel(3, 4, true);
    assert!(s.get_pixel(3, 4));
    s.reset();
    assert!(!s.get_pixel(3, 4));
    assert_eq!(s.iter_screen().len(), 64 * 32);
}

#[test]
fn pixels_wrap_modulo_screen_size() {
    let mut s = Screen::new();
    let was = s.set_pixel(64 + 6, 32 + 3, true);
    assert!(!was);
    assert!(s.get_pixel(6, 3));
    let was_again = s.set_pixel(6, 3, false);
    assert!(was_again);
    assert!(!s.get_pixel(70, 35));
}

#[test]
fn blit_reports_collision_and_restores_on_second_draw() {
    let mut s = Screen::new();
    let sprite = vec![0b1010_0000u8, 0b0101_0000u8];
    let first = s.blit_sprite(10, 5, &sprite);
    assert!(!first);
    assert!(s.get_pixel(10, 5));
    assert!(!s.get_pixel(11, 5));
    assert!(s.get_pixel(12, 5));
    assert!(!s.get_pixel(10, 6));
    assert!(s.get_pixel(11, 6));
    // the same sprite again flips everything back and collides
    let second = s.blit_sprite(10, 5, &sprite);
    assert!(second);
    assert_eq!(s.iter_screen().iter().filter(|p| **p).count(), 0);
}

#[test]
fn blit_collision_only_on_overlap() {
    let mut s = Screen::new();
    let row = vec![0b1000_0000u8];
    assert!(!s.blit_sprite(0, 0, &row));
    // a sprite whose set bit lands elsewhere does not collide
    assert!(!s.blit_sprite(1, 0, &row));
    // overlapping the first pixel collides and turns it off
    assert!(s.blit_sprite(0, 0, &row));
    assert!(!s.get_pixel(0, 0));
    assert!(s.get_pixel(1, 0));
}

#[test]
fn draw_glyph_zero_from_font() {
    // I := font glyph 0; draw its 5 rows at (0, 0); 0xF0 lights 4 pixels
    let mut m = boot(&[0xF0, 0x29, 0xD1, 0x25]);
    run(&mut m, 2);
    assert_eq!(m.get_reg(0xF), 0);
    assert!(lit(&m, 0, 0) && lit(&m, 1, 0) && lit(&m, 2, 0) && lit(&m, 3, 0));
    assert!(!lit(&m, 4, 0));
    // 0x90: ends lit, middle dark
    assert!(lit(&m, 0, 1) && !lit(&m, 1, 1) && !lit(&m, 2, 1) && lit(&m, 3, 1));
}

#[test]
fn draw_twice_restores_framebuffer_and_collides() {
    let mut m = boot(&[0xF0, 0x29, 0xD1, 0x25, 0xD1, 0x25]);
    run(&mut m, 2);
    assert!(m.get_screen().iter().any(|p| *p));
    m.tick();
    assert_eq!(m.get_reg(0xF), 1);
    assert!(m.get_screen().iter().all(|p| !p));
}

#[test]
fn clear_screen_blanks_everything() {
    // draw a glyph, then 00E0: one more step leaves the screen all dark
    let mut m = boot(&[0xF0, 0x29, 0xD1, 0x25, 0x00, 0xE0]);
    run(&mut m, 2);
    assert!(m.get_screen().iter().any(|p| *p));
    m.tick();
    assert!(m.get_screen().iter().all(|p| !p));
}

#[test]
fn sprite_wraps_at_screen_edges() {
    // V0..V3 = 0xFF stored at 0x300 make a solid 8x4 sprite; draw it at
    // (60, 30): columns wrap to 60..63 and 0..3, rows to 30, 31, 0, 1
    let mut m = boot(&[
        0x60, 0xFF, 0x61, 0xFF, 0x62, 0xFF, 0x63, 0xFF, // V0..V3 = 0xFF
        0xA3, 0x00, // I = 0x300
        0xF3, 0x55, // store V0..V3
        0x64, 0x3C, // V4 = 60
        0x65, 0x1E, // V5 = 30
        0xD4, 0x54, // draw 8x4 at (V4, V5)
    ]);
    run(&mut m, 9);
    assert_eq!(m.get_reg(0xF), 0);
    let xs = [60usize, 61, 62, 63, 0, 1, 2, 3];
    let ys = [30usize, 31, 0, 1];
    for y in 0..32usize {
        for x in 0..64usize {
            let expected = xs.contains(&x) && ys.contains(&y);
            assert_eq!(lit(&m, x, y), expected, "pixel ({}, {})", x, y);
        }
    }
}

#[test]
fn draw_collision_flag_set_once_for_whole_sprite() {
    // draw glyph 0 at (0,0), then glyph 1 at (0,0): they overlap somewhere
    let mut m = boot(&[0xF0, 0x29, 0xD1, 0x25, 0x60, 0x01, 0xF0, 0x29, 0xD1, 0x25]);
    run(&mut m, 2);
    assert_eq!(m.get_reg(0xF), 0);
    run(&mut m, 3);
    assert_eq!(m.get_reg(0xF), 1);
}
