use chip8_core::Chip8Error;
use chip8_core::Emulator;
use chip8_core::SCREEN_WIDTH;

fn load(prog: &[u8]) -> Emulator {
    let mut emu = Emulator::new();
    emu.load_data(prog).expect("program fits in memory");
    emu
}

fn run(prog: &[u8], steps: usize) -> Emulator {
    let mut emu = load(prog);
    for _ in 0..steps {
        emu.tick().unwrap();
    }
    emu
}

fn pixel(emu: &Emulator, x: usize, y: usize) -> bool {
    emu.get_display()[y * SCREEN_WIDTH + x]
}

#[test]
fn ld_byte_then_add_reg() {
    // V0 = 10, V1 = 5, V0 += V1
    let emu = run(&[0x60, 0x0A, 0x61, 0x05, 0x80, 0x14], 3);
    assert_eq!(emu.get_v(0), 15);
    assert_eq!(emu.get_v(0xF), 0);
}

#[test]
fn add_reg_sets_carry_on_overflow() {
    // V0 = 200, V1 = 100, V0 += V1: 300 wraps to 44 with carry
    let emu = run(&[0x60, 0xC8, 0x61, 0x64, 0x80, 0x14], 3);
    assert_eq!(emu.get_v(0), 44);
    assert_eq!(emu.get_v(0xF), 1);
}

#[test]
fn sub_reg_without_borrow() {
    // V0 = 10, V1 = 5, V0 -= V1: no borrow, VF = 1
    let emu = run(&[0x60, 0x0A, 0x61, 0x05, 0x80, 0x15], 3);
    assert_eq!(emu.get_v(0), 5);
    assert_eq!(emu.get_v(0xF), 1);
}

#[test]
fn sub_reg_with_borrow() {
    // V0 = 5, V1 = 10, V0 -= V1: wraps to 251, VF = 0
    let emu = run(&[0x60, 0x05, 0x61, 0x0A, 0x80, 0x15], 3);
    assert_eq!(emu.get_v(0), 251);
    assert_eq!(emu.get_v(0xF), 0);
}

#[test]
fn subn_reg_flags_borrow() {
    // V0 = 10, V1 = 5, V0 = V1 - V0: borrow occurred, VF = 1
    let emu = run(&[0x60, 0x0A, 0x61, 0x05, 0x80, 0x17], 3);
    assert_eq!(emu.get_v(0), 251);
    assert_eq!(emu.get_v(0xF), 1);
    // V0 = 5, V1 = 10, V0 = V1 - V0: no borrow, VF = 0
    let other = run(&[0x60, 0x05, 0x61, 0x0A, 0x80, 0x17], 3);
    assert_eq!(other.get_v(0), 5);
    assert_eq!(other.get_v(0xF), 0);
}

#[test]
fn add_byte_wraps_without_flag() {
    // V0 = 250, V0 += 10 wraps to 4; VF untouched
    let emu = run(&[0x60, 0xFA, 0x70, 0x0A], 2);
    assert_eq!(emu.get_v(0), 4);
    assert_eq!(emu.get_v(0xF), 0);
}

#[test]
fn bitwise_or_and_xor() {
    let or = run(&[0x60, 0x0C, 0x61, 0x0A, 0x80, 0x11], 3);
    assert_eq!(or.get_v(0), 0x0E);
    let and = run(&[0x60, 0x0C, 0x61, 0x0A, 0x80, 0x12], 3);
    assert_eq!(and.get_v(0), 0x08);
    let xor = run(&[0x60, 0x0C, 0x61, 0x0A, 0x80, 0x13], 3);
    assert_eq!(xor.get_v(0), 0x06);
}

#[test]
fn ld_reg_copies() {
    let emu = run(&[0x61, 0x2A, 0x80, 0x10], 2);
    assert_eq!(emu.get_v(0), 0x2A);
    assert_eq!(emu.get_v(1), 0x2A);
}

#[test]
fn shr_keeps_low_bit_in_flag() {
    let emu = run(&[0x60, 0x05, 0x80, 0x06], 2);
    assert_eq!(emu.get_v(0), 2);
    assert_eq!(emu.get_v(0xF), 1);
    let even = run(&[0x60, 0x04, 0x80, 0x06], 2);
    assert_eq!(even.get_v(0), 2);
    assert_eq!(even.get_v(0xF), 0);
}

#[test]
fn shl_keeps_high_bit_in_flag() {
    let emu = run(&[0x60, 0x81, 0x80, 0x0E], 2);
    assert_eq!(emu.get_v(0), 2);
    assert_eq!(emu.get_v(0xF), 1);
    let low = run(&[0x60, 0x41, 0x80, 0x0E], 2);
    assert_eq!(low.get_v(0), 0x82);
    assert_eq!(low.get_v(0xF), 0);
}

#[test]
fn skip_instructions() {
    // V0 = 7; skip if V0 == 7
    let eq = run(&[0x60, 0x07, 0x30, 0x07], 2);
    assert_eq!(eq.get_pc(), 0x206);
    // skip if V0 != 7 does not fire
    let ne = run(&[0x60, 0x07, 0x40, 0x07], 2);
    assert_eq!(ne.get_pc(), 0x204);
    // V0 = 7, V1 = 7: skip if V0 == V1
    let req = run(&[0x60, 0x07, 0x61, 0x07, 0x50, 0x10], 3);
    assert_eq!(req.get_pc(), 0x208);
    // skip if V0 != V1 does not fire
    let rne = run(&[0x60, 0x07, 0x61, 0x07, 0x90, 0x10], 3);
    assert_eq!(rne.get_pc(), 0x206);
}

#[test]
fn jump_and_jump_v0() {
    let jp = run(&[0x12, 0x34], 1);
    assert_eq!(jp.get_pc(), 0x234);
    let jpv = run(&[0x60, 0x04, 0xB2, 0x30], 2);
    assert_eq!(jpv.get_pc(), 0x234);
}

#[test]
fn ld_i_and_add_i() {
    let emu = run(&[0xA1, 0x23, 0x60, 0x10, 0xF0, 0x1E], 3);
    assert_eq!(emu.get_i(), 0x133);
}

#[test]
fn ld_font_points_at_glyph() {
    // V0 = 0xA: glyphs are five bytes each
    let emu = run(&[0x60, 0x0A, 0xF0, 0x29], 2);
    assert_eq!(emu.get_i(), 50);
    assert_eq!(emu.get_ram(50), 0xF0);
}

#[test]
fn ld_from_delay_timer() {
    let mut emu = load(&[0x60, 0x03, 0xF0, 0x15, 0xF1, 0x07]);
    emu.tick().unwrap();
    emu.tick().unwrap();
    emu.time_tick();
    emu.tick().unwrap();
    assert_eq!(emu.get_v(1), 2);
}

#[test]
fn rnd_masks_random_byte() {
    // V0 = random byte & 0x0F: the high nibble must come out clear
    let mut emu = load(&[0xC0, 0x0F]);
    emu.tick().unwrap();
    assert_eq!(emu.get_v(0) & 0xF0, 0);
    // deterministic form: the injected byte is masked
    let mut det = load(&[0xC0, 0x0F]);
    det.step_with(0xAB).unwrap();
    assert_eq!(det.get_v(0), 0x0B);
    let mut wide = load(&[0xC3, 0xFF]);
    wide.step_with(0x5C).unwrap();
    assert_eq!(wide.get_v(3), 0x5C);
}

#[test]
fn bcd_stores_three_digits() {
    // V0 = 234, I = 0x300, store decimal digits
    let emu = run(&[0x60, 0xEA, 0xA3, 0x00, 0xF0, 0x33], 3);
    assert_eq!(emu.get_ram(0x300), 2);
    assert_eq!(emu.get_ram(0x301), 3);
    assert_eq!(emu.get_ram(0x302), 4);
}

#[test]
fn store_and_load_registers() {
    // V0..V2 = 1, 2, 3; store them at 0x300; overwrite; load them back
    let prog = [
        0x60, 0x01, 0x61, 0x02, 0x62, 0x03, 0xA3, 0x00, 0xF2, 0x55, 0x60, 0x00, 0x61, 0x00, 0x62,
        0x00, 0xF2, 0x65,
    ];
    let mut emu = load(&prog);
    for _ in 0..5 {
        emu.tick().unwrap();
    }
    assert_eq!(emu.get_ram(0x300), 1);
    assert_eq!(emu.get_ram(0x301), 2);
    assert_eq!(emu.get_ram(0x302), 3);
    assert_eq!(emu.get_ram(0x303), 0);
    for _ in 0..4 {
        emu.tick().unwrap();
    }
    assert_eq!(emu.get_v(0), 1);
    assert_eq!(emu.get_v(1), 2);
    assert_eq!(emu.get_v(2), 3);
}

#[test]
fn wait_key_polls_until_a_key_is_pressed() {
    let mut emu = load(&[0xF0, 0x0A]);
    emu.tick().unwrap();
    assert_eq!(emu.get_pc(), 0x200);
    emu.tick().unwrap();
    assert_eq!(emu.get_pc(), 0x200);
    emu.keypress(0xB, true);
    emu.keypress(0xD, true);
    emu.tick().unwrap();
    // the lowest-indexed pressed key lands in V0
    assert_eq!(emu.get_v(0), 0xB);
    assert_eq!(emu.get_pc(), 0x202);
}

#[test]
fn skip_key_out_of_range_register_is_an_error() {
    // V0 = 200 indexes no key
    let mut emu = load(&[0x60, 0xC8, 0xE0, 0x9E]);
    emu.tick().unwrap();
    assert_eq!(emu.tick(), Err(Chip8Error::OutOfBounds));
}

#[test]
fn draw_glyph_and_collision_flags() {
    // V0 = 2, V1 = 3, I = 0 (glyph "0"), draw five rows at (2, 3), twice
    let prog = [0x60, 0x02, 0x61, 0x03, 0xA0, 0x00, 0xD0, 0x15, 0xD0, 0x15];
    let mut emu = load(&prog);
    for _ in 0..4 {
        emu.tick().unwrap();
    }
    // glyph "0" top row is 0xF0: columns 2..6 of row 3 are set
    assert!(pixel(&emu, 2, 3));
    assert!(pixel(&emu, 5, 3));
    assert!(!pixel(&emu, 6, 3));
    // second glyph row is 0x90: only columns 2 and 5
    assert!(pixel(&emu, 2, 4));
    assert!(!pixel(&emu, 3, 4));
    assert!(pixel(&emu, 5, 4));
    assert!(pixel(&emu, 2, 7));
    assert_eq!(emu.get_v(0xF), 0);
    let before: Vec<bool> = load(&prog).get_display().to_vec();
    // drawing the same sprite again restores the blank screen and collides
    emu.tick().unwrap();
    assert_eq!(emu.get_display().to_vec(), before);
    assert!(emu.get_display().iter().all(|p| !*p));
    assert_eq!(emu.get_v(0xF), 1);
}

#[test]
fn draw_wraps_around_both_edges() {
    // V0 = 62, V1 = 31, draw one row of 0xF0 at the bottom-right corner
    let prog = [0x60, 0x3E, 0x61, 0x1F, 0xA0, 0x00, 0xD0, 0x11];
    let emu = run(&prog, 4);
    assert!(pixel(&emu, 62, 31));
    assert!(pixel(&emu, 63, 31));
    assert!(pixel(&emu, 0, 31));
    assert!(pixel(&emu, 1, 31));
    assert!(!pixel(&emu, 2, 31));
    assert!(!pixel(&emu, 62, 0));
}

#[test]
fn draw_tall_sprite_wraps_vertically() {
    // V0 = 0, V1 = 30, I = 0: glyph "0" wraps over the bottom edge
    let prog = [0x60, 0x00, 0x61, 0x1E, 0xA0, 0x00, 0xD0, 0x15];
    let emu = run(&prog, 4);
    assert!(pixel(&emu, 0, 30));
    assert!(pixel(&emu, 0, 31));
    assert!(pixel(&emu, 0, 0));
    assert!(pixel(&emu, 0, 1));
    assert!(pixel(&emu, 0, 2));
    assert!(!pixel(&emu, 0, 3));
}

#[test]
fn cls_clears_the_framebuffer() {
    let prog = [0x60, 0x02, 0x61, 0x03, 0xA0, 0x00, 0xD0, 0x15, 0x00, 0xE0];
    let mut emu = load(&prog);
    for _ in 0..4 {
        emu.tick().unwrap();
    }
    assert!(emu.get_display().iter().any(|p| *p));
    emu.tick().unwrap();
    assert!(emu.get_display().iter().all(|p| !*p));
}

#[test]
fn add_i_wraps_at_sixteen_bits() {
    // V0 = 255, I = 0xFFF, then add V0 to I often enough to wrap
    let mut prog = vec![0x60, 0xFF, 0xAF, 0xFF];
    for _ in 0..253 {
        prog.push(0xF0);
        prog.push(0x1E);
    }
    let mut emu = load(&prog);
    for _ in 0..255 {
        emu.tick().unwrap();
    }
    // 0xFFF + 253 * 255 = 68610, which wraps to 3074
    assert_eq!(emu.get_i(), 3074);
}

#[test]
fn skip_when_key_not_pressed() {
    // skip if key[V0] is not pressed; V0 stays 0
    let mut emu = load(&[0xE0, 0xA1, 0x00, 0x00, 0xE0, 0xA1]);
    emu.tick().unwrap();
    assert_eq!(emu.get_pc(), 0x204);
    emu.keypress(0, true);
    emu.tick().unwrap();
    assert_eq!(emu.get_pc(), 0x206);
}
