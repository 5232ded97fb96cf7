use chip8_engine::emulator::Chip8;
use chip8_engine::state::ProgramState;
use chip8_engine::state::TimerState;

fn boot(rom: &[u8]) -> Chip8 {
    let mut m = Chip8::new();
    m.load_rom(rom);
    m
}

fn run(m: &mut Chip8, cycles: usize) {
    for _ in 0..cycles {
        m.tick();
    }
}

#[test]
fn fresh_machine_has_font_and_start_pc() {
    let m = Chip8::new();
    assert_eq!(m.get_pc(), 0x200);
    assert_eq!(m.get_i(), 0);
    assert_eq!(m.stack_depth(), 0);
    // first byte of glyph 0 and last byte of glyph F
    assert_eq!(m.get_ram(0x50), 0xF0);
    assert_eq!(m.get_ram(0x9F), 0x80);
    // outside the font region the memory is zero
    assert_eq!(m.get_ram(0x4F), 0x00);
    assert_eq!(m.get_ram(0xA0), 0x00);
    assert!(m.get_screen().iter().all(|p| !p));
}

#[test]
fn load_rom_places_bytes_at_start_addr() {
    let m = boot(&[0xAB, 0xCD]);
    assert_eq!(m.get_ram(0x200), 0xAB);
    assert_eq!(m.get_ram(0x201), 0xCD);
    assert_eq!(m.get_ram(0x202), 0x00);
}

#[test]
fn set_and_add_immediate() {
    // V0 = 5; V0 += 3  =>  V0 == 8 (the end-to-end two-step scenario)
    let mut m = boot(&[0x60, 0x05, 0x70, 0x03]);
    run(&mut m, 2);
    assert_eq!(m.get_reg(0), 8);
}

#[test]
fn add_immediate_wraps_without_flag() {
    // V0 = 0xFF; V0 += 2 wraps to 1 and must not touch VF
    let mut m = boot(&[0x60, 0xFF, 0x70, 0x02]);
    run(&mut m, 2);
    assert_eq!(m.get_reg(0), 1);
    assert_eq!(m.get_reg(0xF), 0);
}

#[test]
fn add_reg_sets_carry_exactly_on_overflow() {
    // V0 = 0xFF, V1 = 0x02: sum 0x101 wraps to 1 with carry
    let mut m = boot(&[0x60, 0xFF, 0x61, 0x02, 0x80, 0x14]);
    run(&mut m, 3);
    assert_eq!(m.get_reg(0), 1);
    assert_eq!(m.get_reg(0xF), 1);
    // V0 = 0x70, V1 = 0x02: no overflow clears the flag
    let mut m2 = boot(&[0x60, 0x70, 0x61, 0x02, 0x80, 0x14]);
    run(&mut m2, 3);
    assert_eq!(m2.get_reg(0), 0x72);
    assert_eq!(m2.get_reg(0xF), 0);
}

#[test]
fn sub_reg_borrow_convention() {
    // V0 = 5, V1 = 7: 5 - 7 wraps to 254, VF = 0 (borrow)
    let mut m = boot(&[0x60, 0x05, 0x61, 0x07, 0x80, 0x15]);
    run(&mut m, 3);
    assert_eq!(m.get_reg(0), 254);
    assert_eq!(m.get_reg(0xF), 0);
    // V0 = 7, V1 = 5: 7 - 5 = 2, VF = 1 (no borrow)
    let mut m2 = boot(&[0x60, 0x07, 0x61, 0x05, 0x80, 0x15]);
    run(&mut m2, 3);
    assert_eq!(m2.get_reg(0), 2);
    assert_eq!(m2.get_reg(0xF), 1);
}

#[test]
fn sub_rev_borrow_convention() {
    // 8XY7: V0 := V1 - V0; with V0 = 5, V1 = 7: 2, VF = 1
    let mut m = boot(&[0x60, 0x05, 0x61, 0x07, 0x80, 0x17]);
    run(&mut m, 3);
    assert_eq!(m.get_reg(0), 2);
    assert_eq!(m.get_reg(0xF), 1);
}

#[test]
fn shr_puts_dropped_lsb_in_vf() {
    // V0 = 5 (0b101): shift right gives 2, VF = 1
    let mut m = boot(&[0x60, 0x05, 0x80, 0x16]);
    run(&mut m, 2);
    assert_eq!(m.get_reg(0), 2);
    assert_eq!(m.get_reg(0xF), 1);
    // V0 = 4: shift right gives 2, VF = 0
    let mut m2 = boot(&[0x60, 0x04, 0x80, 0x16]);
    run(&mut m2, 2);
    assert_eq!(m2.get_reg(0), 2);
    assert_eq!(m2.get_reg(0xF), 0);
}

#[test]
fn shl_puts_dropped_msb_in_vf() {
    // V0 = 0x81: logical shift left gives 2, VF = 1 (old bit 7)
    let mut m = boot(&[0x60, 0x81, 0x80, 0x1E]);
    run(&mut m, 2);
    assert_eq!(m.get_reg(0), 2);
    assert_eq!(m.get_reg(0xF), 1);
    // V0 = 0x41: gives 0x82, VF = 0
    let mut m2 = boot(&[0x60, 0x41, 0x80, 0x1E]);
    run(&mut m2, 2);
    assert_eq!(m2.get_reg(0), 0x82);
    assert_eq!(m2.get_reg(0xF), 0);
}

#[test]
fn bitwise_ops_have_no_flag_effect() {
    // V0 = 0x0F, V1 = 0x35: OR, AND, XOR in sequence
    let mut m = boot(&[0x60, 0x0F, 0x61, 0x35, 0x80, 0x11]);
    run(&mut m, 3);
    assert_eq!(m.get_reg(0), 0x3F);
    assert_eq!(m.get_reg(0xF), 0);
    let mut m2 = boot(&[0x60, 0x0F, 0x61, 0x35, 0x80, 0x12]);
    run(&mut m2, 3);
    assert_eq!(m2.get_reg(0), 0x05);
    let mut m3 = boot(&[0x60, 0x0F, 0x61, 0x35, 0x80, 0x13]);
    run(&mut m3, 3);
    assert_eq!(m3.get_reg(0), 0x3A);
}

#[test]
fn copy_reg_copies() {
    let mut m = boot(&[0x61, 0x2A, 0x80, 0x10]);
    run(&mut m, 2);
    assert_eq!(m.get_reg(0), 0x2A);
}

#[test]
fn conditional_skips_take_and_fall_through() {
    // 3XNN taken: V0 = 5, skip over 0x61 0x01, then V2 = 9
    let mut m = boot(&[0x60, 0x05, 0x30, 0x05, 0x61, 0x01, 0x62, 0x09]);
    run(&mut m, 3);
    assert_eq!(m.get_reg(1), 0);
    assert_eq!(m.get_reg(2), 9);
    // 3XNN not taken: V1 gets written
    let mut m2 = boot(&[0x60, 0x05, 0x30, 0x06, 0x61, 0x01]);
    run(&mut m2, 3);
    assert_eq!(m2.get_reg(1), 1);
    // 5XY0 taken with equal registers
    let mut m3 = boot(&[0x60, 0x07, 0x61, 0x07, 0x50, 0x10, 0x62, 0x01, 0x63, 0x02]);
    run(&mut m3, 4);
    assert_eq!(m3.get_reg(2), 0);
    assert_eq!(m3.get_reg(3), 2);
    // 9XY0 not taken with equal registers
    let mut m4 = boot(&[0x60, 0x07, 0x61, 0x07, 0x90, 0x10, 0x62, 0x01]);
    run(&mut m4, 4);
    assert_eq!(m4.get_reg(2), 1);
}

#[test]
fn jump_sets_pc_directly() {
    let mut m = boot(&[0x12, 0x04, 0x60, 0x01, 0x60, 0x02]);
    assert_eq!(m.tick(), ProgramState::Running);
    assert_eq!(m.get_pc(), 0x204);
    m.tick();
    assert_eq!(m.get_reg(0), 2);
}

#[test]
fn jump_offset_adds_v0() {
    // V0 = 4; B202 jumps to 0x202 + 4 = 0x206 where V1 = 7
    let mut m = boot(&[0x60, 0x04, 0xB2, 0x02, 0x61, 0x01, 0x61, 0x07]);
    run(&mut m, 3);
    assert_eq!(m.get_reg(1), 7);
}

#[test]
fn call_and_ret_restore_pc_and_depth() {
    // call 0x206; the subroutine returns; then V0 = 0xAA executes at 0x202
    let mut m = boot(&[0x22, 0x06, 0x60, 0xAA, 0x00, 0x00, 0x00, 0xEE]);
    assert_eq!(m.tick(), ProgramState::Running);
    assert_eq!(m.get_pc(), 0x206);
    assert_eq!(m.stack_depth(), 1);
    assert_eq!(m.tick(), ProgramState::Running);
    assert_eq!(m.get_pc(), 0x202);
    assert_eq!(m.stack_depth(), 0);
    m.tick();
    assert_eq!(m.get_reg(0), 0xAA);
}

#[test]
fn stack_underflow_finishes() {
    let mut m = boot(&[0x00, 0xEE]);
    assert_eq!(m.tick(), ProgramState::Finished);
    // latched: further steps keep reporting Finished and change nothing
    assert_eq!(m.tick(), ProgramState::Finished);
}

#[test]
fn stack_overflow_finishes() {
    // 0x200 calls itself: 16 pending calls are fine, the 17th overflows
    let mut m = boot(&[0x22, 0x00]);
    for _ in 0..16 {
        assert_eq!(m.tick(), ProgramState::Running);
    }
    assert_eq!(m.stack_depth(), 16);
    assert_eq!(m.tick(), ProgramState::Finished);
    assert_eq!(m.tick(), ProgramState::Finished);
}

#[test]
fn pc_running_off_memory_finishes() {
    // jump to 0xFFE, execute the (zero, invalid) opcode there, then the
    // advanced pc is out of the instruction space
    let mut m = boot(&[0x1F, 0xFE]);
    assert_eq!(m.tick(), ProgramState::Running);
    assert_eq!(m.get_pc(), 0xFFE);
    assert_eq!(m.tick(), ProgramState::Finished);
    assert_eq!(m.tick(), ProgramState::Finished);
}

#[test]
fn invalid_opcode_has_no_effect_and_continues() {
    let mut m = boot(&[0xFF, 0xFF, 0x60, 0x09]);
    assert_eq!(m.tick(), ProgramState::Running);
    assert_eq!(m.get_pc(), 0x202);
    m.tick();
    assert_eq!(m.get_reg(0), 9);
}

#[test]
fn set_index_and_add_index() {
    // I = 0x010; V0 = 5; I += V0
    let mut m = boot(&[0xA0, 0x10, 0x60, 0x05, 0xF0, 0x1E]);
    run(&mut m, 2);
    assert_eq!(m.get_i(), 0x010);
    m.tick();
    assert_eq!(m.get_i(), 0x015);
    assert_eq!(m.get_reg(0xF), 0);
}

#[test]
fn font_char_points_i_at_glyph() {
    // I = 0x234 first, then F029 with V0 = 0 must set I to the font base
    let mut m = boot(&[0xA2, 0x34, 0xF0, 0x29]);
    m.tick();
    assert_eq!(m.get_i(), 0x234);
    m.tick();
    assert_eq!(m.get_i(), 0x50);
    // glyph 7 sits 5 bytes per glyph above the base; only the low nibble
    // of VX picks the glyph
    let mut m2 = boot(&[0x60, 0x17, 0xF0, 0x29]);
    run(&mut m2, 2);
    assert_eq!(m2.get_i(), 0x50 + 5 * 7);
}

#[test]
fn bcd_writes_three_distinct_digits() {
    // V0 = 254; I = 0x300
    let mut m = boot(&[0x60, 0xFE, 0xA3, 0x00, 0xF0, 0x33]);
    run(&mut m, 3);
    assert_eq!(m.get_ram(0x300), 2);
    assert_eq!(m.get_ram(0x301), 5);
    assert_eq!(m.get_ram(0x302), 4);
}

#[test]
fn store_and_load_registers_round_trip() {
    // store V0..V2 at I = 0x300, clobber them, load them back
    let mut m = boot(&[
        0x60, 0x11, 0x61, 0x22, 0x62, 0x33, // V0..V2
        0xA3, 0x00, // I = 0x300
        0xF2, 0x55, // store V0..V2
        0x60, 0x00, 0x61, 0x00, 0x62, 0x00, // clobber
        0xF2, 0x65, // load V0..V2
    ]);
    run(&mut m, 5);
    assert_eq!(m.get_ram(0x300), 0x11);
    assert_eq!(m.get_ram(0x301), 0x22);
    assert_eq!(m.get_ram(0x302), 0x33);
    run(&mut m, 4);
    assert_eq!(m.get_reg(0), 0x11);
    assert_eq!(m.get_reg(1), 0x22);
    assert_eq!(m.get_reg(2), 0x33);
    assert_eq!(m.get_i(), 0x300);
}

#[test]
fn timers_decrement_to_zero_and_signal_once() {
    // delay = 2, sound = 2
    let mut m = boot(&[0x60, 0x02, 0xF0, 0x15, 0xF0, 0x18]);
    run(&mut m, 3);
    assert_eq!(m.tick_timers(), TimerState::Silent);
    assert_eq!(m.tick_timers(), TimerState::PlaySound);
    assert_eq!(m.tick_timers(), TimerState::Silent);
    assert_eq!(m.tick_timers(), TimerState::Silent);
}

#[test]
fn delay_timer_reads_back_and_floors_at_zero() {
    // delay = 1; tick it twice; F107 reads it into V1
    let mut m = boot(&[0x60, 0x01, 0xF0, 0x15, 0xF1, 0x07]);
    run(&mut m, 2);
    m.tick_timers();
    m.tick_timers();
    m.tick();
    assert_eq!(m.get_reg(1), 0);
}

#[test]
fn skip_if_key_pressed() {
    // V0 = 4; E09E skips V1 = 1 only when key 4 is down
    let rom = [0x60, 0x04, 0xE0, 0x9E, 0x61, 0x01, 0x62, 0x02];
    let mut m = boot(&rom);
    m.register_key(4, true);
    run(&mut m, 3);
    assert_eq!(m.get_reg(1), 0);
    assert_eq!(m.get_reg(2), 2);
    let mut m2 = boot(&rom);
    run(&mut m2, 3);
    assert_eq!(m2.get_reg(1), 1);
}

#[test]
fn skip_if_key_not_pressed() {
    let rom = [0x60, 0x04, 0xE0, 0xA1, 0x61, 0x01, 0x62, 0x02];
    let mut m = boot(&rom);
    run(&mut m, 3);
    assert_eq!(m.get_reg(1), 0);
    assert_eq!(m.get_reg(2), 2);
    let mut m2 = boot(&rom);
    m2.register_key(4, true);
    run(&mut m2, 3);
    assert_eq!(m2.get_reg(1), 1);
}

#[test]
fn released_key_no_longer_skips() {
    let rom = [0x60, 0x04, 0xE0, 0x9E, 0x61, 0x01];
    let mut m = boot(&rom);
    m.register_key(4, true);
    m.register_key(4, false);
    run(&mut m, 3);
    assert_eq!(m.get_reg(1), 1);
}

#[test]
fn wait_key_blocks_by_rewinding_pc() {
    let mut m = boot(&[0xF0, 0x0A, 0x61, 0x07]);
    // no key: the instruction re-executes, pc stays put
    assert_eq!(m.tick(), ProgramState::Running);
    assert_eq!(m.get_pc(), 0x200);
    m.tick();
    assert_eq!(m.get_pc(), 0x200);
    // keys 9 and 5 down: the lowest pressed key lands in V0
    m.register_key(9, true);
    m.register_key(5, true);
    m.tick();
    assert_eq!(m.get_reg(0), 5);
    assert_eq!(m.get_pc(), 0x202);
    m.tick();
    assert_eq!(m.get_reg(1), 7);
}

#[test]
fn rand_is_masked_by_nn() {
    // C000 masks the random byte with 0: V0 must be 0
    let mut m = boot(&[0x60, 0x55, 0xC0, 0x00]);
    run(&mut m, 2);
    assert_eq!(m.get_reg(0), 0);
    // C30F keeps only the low nibble
    let mut m2 = boot(&[0xC3, 0x0F]);
    m2.tick();
    assert!(m2.get_reg(3) <= 0x0F);
}

#[test]
fn run_cycle_executes_one_instruction() {
    let mut m = boot(&[0x60, 0x2A]);
    m.run_cycle();
    assert_eq!(m.get_reg(0), 0x2A);
    assert_eq!(m.get_pc(), 0x202);
}

#[test]
fn copy_fontset_restores_overwritten_font() {
    // BCD at I = 0x50 scribbles over the font region
    let mut m = boot(&[0x60, 0xFE, 0xA0, 0x50, 0xF0, 0x33]);
    run(&mut m, 3);
    assert_eq!(m.get_ram(0x50), 2);
    m.copy_fontset();
    assert_eq!(m.get_ram(0x50), 0xF0);
}
