use chip8_core::Chip8Error;
use chip8_core::Emulator;

const START: usize = 0x200;

fn load(prog: &[u8]) -> Emulator {
    let mut emu = Emulator::new();
    emu.load_data(prog).expect("program fits in memory");
    emu
}

#[test]
fn fresh_machine_state() {
    let emu = Emulator::new();
    assert_eq!(emu.get_pc(), 0x200);
    assert_eq!(emu.get_i(), 0);
    assert_eq!(emu.get_sp(), 0);
    assert_eq!(emu.get_delay_timer(), 0);
    assert_eq!(emu.get_sound_timer(), 0);
    for k in 0..16 {
        assert_eq!(emu.get_v(k), 0);
    }
    let display = emu.get_display();
    assert_eq!(display.len(), 64 * 32);
    assert!(display.iter().all(|p| !*p));
}

#[test]
fn font_table_preloaded() {
    let emu = Emulator::new();
    assert_eq!(emu.get_ram(0), 0xF0);
    assert_eq!(emu.get_ram(1), 0x90);
    assert_eq!(emu.get_ram(4), 0xF0);
    assert_eq!(emu.get_ram(5), 0x20);
    assert_eq!(emu.get_ram(79), 0x80);
    assert_eq!(emu.get_ram(80), 0);
    assert_eq!(emu.get_ram(4095), 0);
}

#[test]
fn load_data_copies_program() {
    let emu = load(&[0xAB, 0xCD, 0xEF]);
    assert_eq!(emu.get_ram(START), 0xAB);
    assert_eq!(emu.get_ram(START + 1), 0xCD);
    assert_eq!(emu.get_ram(START + 2), 0xEF);
    assert_eq!(emu.get_ram(START + 3), 0x00);
}

#[test]
fn load_exactly_full_memory_succeeds() {
    let mut emu = Emulator::new();
    let prog = vec![0x77u8; 4096 - 512];
    assert_eq!(emu.load_data(&prog), Ok(()));
    assert_eq!(emu.get_ram(512), 0x77);
    assert_eq!(emu.get_ram(4095), 0x77);
}

#[test]
fn load_one_byte_too_many_fails_unchanged() {
    let mut emu = Emulator::new();
    let prog = vec![0x77u8; 4096 - 512 + 1];
    assert_eq!(emu.load_data(&prog), Err(Chip8Error::Capacity));
    assert_eq!(emu, Emulator::new());
}

#[test]
fn reset_restores_fresh_state() {
    let mut emu = load(&[0x60, 0x0A, 0xA2, 0x34, 0xF0, 0x15]);
    emu.tick().unwrap();
    emu.tick().unwrap();
    emu.tick().unwrap();
    emu.keypress(5, true);
    emu.time_tick();
    emu.reset();
    assert_eq!(emu, Emulator::new());
}

#[test]
fn delay_timer_counts_down_to_zero() {
    // V0 = 1, then delay timer = V0
    let mut emu = load(&[0x60, 0x01, 0xF0, 0x15]);
    emu.tick().unwrap();
    emu.tick().unwrap();
    assert_eq!(emu.get_delay_timer(), 1);
    emu.time_tick();
    assert_eq!(emu.get_delay_timer(), 0);
    emu.time_tick();
    assert_eq!(emu.get_delay_timer(), 0);
}

#[test]
fn sound_timer_counts_down_to_zero() {
    // V3 = 2, then sound timer = V3
    let mut emu = load(&[0x63, 0x02, 0xF3, 0x18]);
    emu.tick().unwrap();
    emu.tick().unwrap();
    assert_eq!(emu.get_sound_timer(), 2);
    emu.time_tick();
    assert_eq!(emu.get_sound_timer(), 1);
    emu.time_tick();
    assert_eq!(emu.get_sound_timer(), 0);
    emu.time_tick();
    assert_eq!(emu.get_sound_timer(), 0);
}

#[test]
fn nop_advances_pc_by_two() {
    // fresh memory holds 0x00 0x00 at the start address
    let mut emu = Emulator::new();
    assert_eq!(emu.get_pc(), 512);
    emu.tick().unwrap();
    assert_eq!(emu.get_pc(), 514);
}

#[test]
fn call_then_ret_returns_past_the_call() {
    // 0x200: call 0x208; 0x208: ret
    let mut emu = load(&[0x22, 0x08, 0x00, 0x00, 0x00, 0x00, 0x00, 0x00, 0x00, 0xEE]);
    emu.tick().unwrap();
    assert_eq!(emu.get_pc(), 0x208);
    assert_eq!(emu.get_sp(), 1);
    emu.tick().unwrap();
    assert_eq!(emu.get_pc(), 0x202);
    assert_eq!(emu.get_sp(), 0);
}

#[test]
fn unimplemented_opcode_is_an_error() {
    // 0x5XY1 matches no instruction pattern
    let mut emu = load(&[0x50, 0x11]);
    assert_eq!(emu.tick(), Err(Chip8Error::UnimplementedOpcode));
    // the machine is untouched, so retrying gives the same error
    assert_eq!(emu.get_pc(), 0x200);
    assert_eq!(emu.tick(), Err(Chip8Error::UnimplementedOpcode));
}

#[test]
fn stack_overflow_after_sixteen_nested_calls() {
    // a subroutine that calls its own address forever
    let mut emu = load(&[0x22, 0x00]);
    for depth in 1..=16 {
        emu.tick().unwrap();
        assert_eq!(emu.get_sp(), depth);
    }
    assert_eq!(emu.tick(), Err(Chip8Error::StackOverflow));
    assert_eq!(emu.get_sp(), 16);
    assert_eq!(emu.get_pc(), 0x200);
}

#[test]
fn ret_on_empty_stack_underflows() {
    let mut emu = load(&[0x00, 0xEE]);
    assert_eq!(emu.tick(), Err(Chip8Error::StackUnderflow));
    assert_eq!(emu.get_pc(), 0x200);
}

#[test]
fn fetch_at_memory_edge_is_out_of_bounds() {
    // jump to 0xFFF: the second opcode byte would lie outside memory
    let mut emu = load(&[0x1F, 0xFF]);
    emu.tick().unwrap();
    assert_eq!(emu.get_pc(), 0xFFF);
    assert_eq!(emu.tick(), Err(Chip8Error::OutOfBounds));
    assert_eq!(emu.get_pc(), 0xFFF);
}

#[test]
fn draw_past_memory_end_is_out_of_bounds() {
    // I = 0xFFF, then draw a two-row sprite: the second row is outside memory
    let mut emu = load(&[0xAF, 0xFF, 0xD0, 0x02]);
    emu.tick().unwrap();
    assert_eq!(emu.tick(), Err(Chip8Error::OutOfBounds));
}

#[test]
fn keypress_records_key_state() {
    // skip if key[V0] pressed; V0 stays 0
    let mut emu = load(&[0xE0, 0x9E, 0x00, 0x00, 0xE0, 0x9E]);
    emu.tick().unwrap();
    assert_eq!(emu.get_pc(), 0x202);
    emu.tick().unwrap();
    emu.keypress(0, true);
    emu.tick().unwrap();
    assert_eq!(emu.get_pc(), 0x208);
    emu.keypress(0, false);
    let mut again = load(&[0xE0, 0x9E]);
    again.keypress(0, true);
    again.keypress(0, false);
    again.tick().unwrap();
    assert_eq!(again.get_pc(), 0x202);
}
