use chip8::cpu::{AudioCommand, Cpu, CpuError};
use chip8::display::Display;
use chip8::keyboard::Keyboard;
use chip8::memory::{BlockMemory, Memory};

fn cpu_with_rom(rom: &[u8]) -> Cpu {
    Cpu::new(BlockMemory::new(rom), Display::new(), Keyboard::new())
}

fn run_cycles(cpu: &mut Cpu, n: usize) {
    for _ in 0..n {
        cpu.cycle().expect("cycle faulted");
    }
}

#[test]
fn fresh_engine_executes_ld_v0() {
    // LD V0, 0x0A; one cycle moves the immediate in and the PC past it.
    let mut cpu = cpu_with_rom(&[0x60, 0x0A]);
    assert_eq!(cpu.registers.pc, 0x200);
    let r = cpu.cycle();
    assert_eq!(r, Ok(None));
    assert_eq!(cpu.registers.v[0], 0x0A);
    assert_eq!(cpu.registers.pc, 0x202);
}

#[test]
fn add_xy_overflow_sets_carry() {
    // V0 = 0xFF, V1 = 0x01, ADD V0,V1: wraps to 0x00 with VF = 1.
    let mut cpu = cpu_with_rom(&[0x60, 0xFF, 0x61, 0x01, 0x80, 0x14]);
    run_cycles(&mut cpu, 3);
    assert_eq!(cpu.registers.v[0], 0x00);
    assert_eq!(cpu.registers.v[0xF], 1);
}

#[test]
fn add_xy_without_overflow_clears_carry() {
    let mut cpu = cpu_with_rom(&[0x60, 0x05, 0x61, 0x03, 0x80, 0x14]);
    run_cycles(&mut cpu, 3);
    assert_eq!(cpu.registers.v[0], 0x08);
    assert_eq!(cpu.registers.v[0xF], 0);
}

#[test]
fn sub_xy_with_borrow_wraps() {
    // V0 = 0x05, V1 = 0x0A, SUB V0,V1: wraps to 0xFB with VF = 0 (borrow).
    let mut cpu = cpu_with_rom(&[0x60, 0x05, 0x61, 0x0A, 0x80, 0x15]);
    run_cycles(&mut cpu, 3);
    assert_eq!(cpu.registers.v[0], 0xFB);
    assert_eq!(cpu.registers.v[0xF], 0);
}

#[test]
fn sub_xy_without_borrow_sets_flag() {
    let mut cpu = cpu_with_rom(&[0x60, 0x0A, 0x61, 0x05, 0x80, 0x15]);
    run_cycles(&mut cpu, 3);
    assert_eq!(cpu.registers.v[0], 0x05);
    assert_eq!(cpu.registers.v[0xF], 1);
}

#[test]
fn subn_xy_flags_on_no_borrow() {
    // V0 = 0x02, V1 = 0x07, SUBN V0,V1: V0 = V1 - V0 = 5, VF = 1.
    let mut cpu = cpu_with_rom(&[0x60, 0x02, 0x61, 0x07, 0x80, 0x17]);
    run_cycles(&mut cpu, 3);
    assert_eq!(cpu.registers.v[0], 0x05);
    assert_eq!(cpu.registers.v[0xF], 1);
}

#[test]
fn shr_reports_shifted_out_bit() {
    // V0 = 0x03, SHR V0: VF = 1 (bit 0 was set), V0 = 0x01.
    let mut cpu = cpu_with_rom(&[0x60, 0x03, 0x80, 0x06]);
    run_cycles(&mut cpu, 2);
    assert_eq!(cpu.registers.v[0xF], 1);
    assert_eq!(cpu.registers.v[0], 0x01);
}

#[test]
fn shl_reports_top_bit_and_wraps() {
    let mut cpu = cpu_with_rom(&[0x60, 0x81, 0x80, 0x0E]);
    run_cycles(&mut cpu, 2);
    assert_eq!(cpu.registers.v[0xF], 1);
    assert_eq!(cpu.registers.v[0], 0x02);
}

#[test]
fn ld_xy_copies_register() {
    let mut cpu = cpu_with_rom(&[0x60, 0x2A, 0x81, 0x00]);
    run_cycles(&mut cpu, 2);
    assert_eq!(cpu.registers.v[1], 0x2A);
    assert_eq!(cpu.registers.pc, 0x204);
}

#[test]
fn bitwise_or_and_xor() {
    let mut cpu = cpu_with_rom(&[
        0x60, 0xF0, 0x61, 0x0F, 0x80, 0x11, // OR: V0 = 0xFF
        0x62, 0x3C, 0x63, 0x0F, 0x82, 0x32, // AND: V2 = 0x0C
        0x64, 0xFF, 0x65, 0x0F, 0x84, 0x53, // XOR: V4 = 0xF0
    ]);
    run_cycles(&mut cpu, 9);
    assert_eq!(cpu.registers.v[0], 0xFF);
    assert_eq!(cpu.registers.v[2], 0x0C);
    assert_eq!(cpu.registers.v[4], 0xF0);
}

#[test]
fn add_xkk_wraps_without_flag() {
    let mut cpu = cpu_with_rom(&[0x60, 0xFE, 0x70, 0x05]);
    run_cycles(&mut cpu, 2);
    assert_eq!(cpu.registers.v[0], 0x03);
    assert_eq!(cpu.registers.v[0xF], 0);
}

#[test]
fn jp_sets_pc_exactly() {
    // JP 0x234: the PC lands on the target with no implicit advance.
    let mut cpu = cpu_with_rom(&[0x12, 0x34]);
    let r = cpu.cycle();
    assert_eq!(r, Ok(None));
    assert_eq!(cpu.registers.pc, 0x234);
}

#[test]
fn jp2_adds_v0() {
    let mut cpu = cpu_with_rom(&[0x60, 0x05, 0xB3, 0x00]);
    run_cycles(&mut cpu, 2);
    assert_eq!(cpu.registers.pc, 0x305);
}

#[test]
fn call_then_ret_resumes_after_call_site() {
    // CALL 0x206 from 0x200, then RET: the PC comes back to 0x202.
    let mut cpu = cpu_with_rom(&[0x22, 0x06, 0x00, 0x00, 0x00, 0x00, 0x00, 0xEE]);
    cpu.cycle().expect("call faulted");
    assert_eq!(cpu.registers.pc, 0x206);
    assert_eq!(cpu.registers.sp, 1);
    assert_eq!(cpu.registers.stack[0], 0x200);
    cpu.cycle().expect("ret faulted");
    assert_eq!(cpu.registers.pc, 0x202);
    assert_eq!(cpu.registers.sp, 0);
}

#[test]
fn se_and_sne_skip_patterns() {
    // SE V0,0x00 matches on a fresh engine: skip. Then SNE V0,0x00 does not
    // match: no skip.
    let mut cpu = cpu_with_rom(&[0x30, 0x00, 0x00, 0x00, 0x40, 0x00, 0x60, 0x07]);
    cpu.cycle().expect("se faulted");
    assert_eq!(cpu.registers.pc, 0x204);
    cpu.cycle().expect("sne faulted");
    assert_eq!(cpu.registers.pc, 0x206);
    cpu.cycle().expect("ld faulted");
    assert_eq!(cpu.registers.v[0], 0x07);
}

#[test]
fn se_xy_skips_on_equal_registers() {
    let mut cpu = cpu_with_rom(&[0x50, 0x10, 0x00, 0x00, 0x90, 0x20]);
    cpu.cycle().expect("se xy faulted");
    assert_eq!(cpu.registers.pc, 0x204);
    // SNE V0,V2 with equal registers does not skip.
    cpu.cycle().expect("sne xy faulted");
    assert_eq!(cpu.registers.pc, 0x206);
}

#[test]
fn ld_bcd_writes_decimal_digits() {
    // V0 = 234, I = 0x300, LD BCD: memory holds [2, 3, 4] at I.
    let mut cpu = cpu_with_rom(&[0x60, 0xEA, 0xA3, 0x00, 0xF0, 0x33]);
    run_cycles(&mut cpu, 3);
    assert_eq!(cpu.memory.read_byte(0x300), 2);
    assert_eq!(cpu.memory.read_byte(0x301), 3);
    assert_eq!(cpu.memory.read_byte(0x302), 4);
}

#[test]
fn ld_block_store_and_load_round_trip() {
    // Fill V0..=V2, store them at I, clear them, load them back.
    let mut cpu = cpu_with_rom(&[
        0x60, 0x11, 0x61, 0x22, 0x62, 0x33, // V0..V2
        0xA3, 0x00, // I = 0x300
        0xF2, 0x55, // store V0..=V2
        0x60, 0x00, 0x61, 0x00, 0x62, 0x00, // clear
        0xF2, 0x65, // load V0..=V2
    ]);
    run_cycles(&mut cpu, 9);
    assert_eq!(cpu.memory.read_byte(0x300), 0x11);
    assert_eq!(cpu.memory.read_byte(0x301), 0x22);
    assert_eq!(cpu.memory.read_byte(0x302), 0x33);
    assert_eq!(cpu.registers.v[0], 0x11);
    assert_eq!(cpu.registers.v[1], 0x22);
    assert_eq!(cpu.registers.v[2], 0x33);
}

#[test]
fn ld_sprite_points_at_font_slot() {
    // I = 5 * (V0 & 0xF): digit sprites are five bytes each from address 0.
    let mut cpu = cpu_with_rom(&[0x60, 0xAB, 0xF0, 0x29]);
    run_cycles(&mut cpu, 2);
    assert_eq!(cpu.registers.i, 5 * 0xB);
}

#[test]
fn add_i_x_accumulates() {
    let mut cpu = cpu_with_rom(&[0xA0, 0x10, 0x60, 0x05, 0xF0, 0x1E]);
    run_cycles(&mut cpu, 3);
    assert_eq!(cpu.registers.i, 0x15);
}

#[test]
fn delay_timer_read_back_and_tick() {
    let mut cpu = cpu_with_rom(&[0x60, 0x03, 0xF0, 0x15, 0xF1, 0x07]);
    run_cycles(&mut cpu, 3);
    assert_eq!(cpu.registers.v[1], 0x03);
    assert_eq!(cpu.decrement_timers(), None);
    assert_eq!(cpu.registers.delay_timer, 2);
}

#[test]
fn sound_timer_drives_audio_exactly_twice() {
    // LD V0,5; LD ST,V0 resumes audio once; five ticks later it pauses
    // exactly once, with no toggling in between.
    let mut cpu = cpu_with_rom(&[0x60, 0x05, 0xF0, 0x18]);
    assert_eq!(cpu.cycle(), Ok(None));
    assert_eq!(cpu.cycle(), Ok(Some(AudioCommand::Resume)));
    assert_eq!(cpu.registers.sound_timer, 5);
    let mut signals = Vec::new();
    for _ in 0..5 {
        signals.push(cpu.decrement_timers());
    }
    assert_eq!(signals, vec![None, None, None, None, Some(AudioCommand::Pause)]);
    assert_eq!(cpu.registers.sound_timer, 0);
    // Further ticks leave the timer at zero and stay silent.
    assert_eq!(cpu.decrement_timers(), None);
    assert_eq!(cpu.registers.sound_timer, 0);
}

#[test]
fn sound_timer_write_of_zero_pauses() {
    let mut cpu = cpu_with_rom(&[0xF0, 0x18]);
    assert_eq!(cpu.cycle(), Ok(Some(AudioCommand::Pause)));
}

#[test]
fn rnd_masks_random_byte() {
    let mut cpu = cpu_with_rom(&[0xC0, 0x0F]);
    cpu.cycle().expect("rnd faulted");
    assert_eq!(cpu.registers.v[0] & 0xF0, 0);
    assert_eq!(cpu.registers.pc, 0x202);
}

#[test]
fn drw_reports_collision_on_second_draw() {
    // Draw the same one-byte sprite twice at the same spot: no erasure the
    // first time, full erasure the second.
    let mut cpu = cpu_with_rom(&[0xA3, 0x00, 0xD0, 0x01, 0xD0, 0x01]);
    cpu.memory.write_byte(0x300, 0x80);
    cpu.cycle().expect("ld i faulted");
    cpu.cycle().expect("first draw faulted");
    assert_eq!(cpu.registers.v[0xF], 0);
    assert!(cpu.display.pixels[0]);
    cpu.cycle().expect("second draw faulted");
    assert_eq!(cpu.registers.v[0xF], 1);
    assert!(!cpu.display.pixels[0]);
}

#[test]
fn cls_clears_the_bitmap() {
    let mut cpu = cpu_with_rom(&[0xA3, 0x00, 0xD0, 0x01, 0x00, 0xE0]);
    cpu.memory.write_byte(0x300, 0xFF);
    run_cycles(&mut cpu, 3);
    assert!(cpu.display.pixels.iter().all(|p| !p));
}

#[test]
fn skp_skips_when_key_down() {
    // V0 = 4; SKP V0 with key 4 down skips the next instruction.
    let mut cpu = cpu_with_rom(&[0x60, 0x04, 0xE0, 0x9E, 0x00, 0x00, 0x61, 0x09]);
    cpu.cycle().expect("ld faulted");
    cpu.keyboard.update_key_status(4, true);
    cpu.cycle().expect("skp faulted");
    assert_eq!(cpu.registers.pc, 0x206);
    cpu.cycle().expect("ld after skip faulted");
    assert_eq!(cpu.registers.v[1], 0x09);
}

#[test]
fn sknp_skips_when_key_up() {
    let mut cpu = cpu_with_rom(&[0x60, 0x04, 0xE0, 0xA1]);
    run_cycles(&mut cpu, 2);
    assert_eq!(cpu.registers.pc, 0x206);
}

#[test]
fn ld_key_retries_until_a_press_is_pending() {
    // FX0A leaves the PC unchanged until a key press is pending, then
    // stores the key and advances.
    let mut cpu = cpu_with_rom(&[0xF0, 0x0A]);
    cpu.cycle().expect("key wait faulted");
    assert_eq!(cpu.registers.pc, 0x200);
    cpu.cycle().expect("key wait retry faulted");
    assert_eq!(cpu.registers.pc, 0x200);
    cpu.keyboard.update_key_status(7, true);
    cpu.cycle().expect("key wait with key faulted");
    assert_eq!(cpu.registers.v[0], 7);
    assert_eq!(cpu.registers.pc, 0x202);
}

#[test]
fn unknown_opcode_is_fatal_with_diagnostics() {
    let mut cpu = cpu_with_rom(&[0x00, 0x00]);
    assert_eq!(cpu.cycle(), Err(CpuError::UnknownOpcode(0x0000)));
    // The engine state is untouched by the failed cycle.
    assert_eq!(cpu.registers.pc, 0x200);
}

#[test]
fn unknown_opcode_carries_the_literal_value() {
    // 5XY1 matches no pattern: the 0x5 range requires a zero low nibble.
    let mut cpu = cpu_with_rom(&[0x5A, 0xB1]);
    assert_eq!(cpu.cycle(), Err(CpuError::UnknownOpcode(0x5AB1)));
}

#[test]
fn ret_on_empty_stack_is_fatal() {
    let mut cpu = cpu_with_rom(&[0x00, 0xEE]);
    assert_eq!(cpu.cycle(), Err(CpuError::ResourceExhausted));
    assert_eq!(cpu.registers.pc, 0x200);
}

#[test]
fn call_beyond_depth_sixteen_is_fatal() {
    // CALL 0x200 calls itself: sixteen pushes fill the stack, the
    // seventeenth faults.
    let mut cpu = cpu_with_rom(&[0x22, 0x00]);
    for _ in 0..16 {
        assert_eq!(cpu.cycle(), Ok(None));
    }
    assert_eq!(cpu.registers.sp, 16);
    assert_eq!(cpu.cycle(), Err(CpuError::ResourceExhausted));
    assert_eq!(cpu.registers.sp, 16);
}

#[test]
fn fetch_at_memory_edge_is_fatal() {
    // JP 0xFFF parks the PC where no whole opcode fits: the next fetch
    // would leave memory.
    let mut cpu = cpu_with_rom(&[0x1F, 0xFF]);
    assert_eq!(cpu.cycle(), Ok(None));
    assert_eq!(cpu.registers.pc, 0xFFF);
    assert_eq!(cpu.cycle(), Err(CpuError::ResourceExhausted));
}

#[test]
fn skp_with_key_index_out_of_range_is_fatal() {
    let mut cpu = cpu_with_rom(&[0x60, 0x20, 0xE0, 0x9E]);
    cpu.cycle().expect("ld faulted");
    assert_eq!(cpu.cycle(), Err(CpuError::ResourceExhausted));
}

#[test]
fn ld_key_ignores_a_pending_release() {
    // A key-up edge latches "pending" but offers no pressed key: the wait
    // keeps retrying.
    let mut cpu = cpu_with_rom(&[0xF0, 0x0A]);
    cpu.keyboard.update_key_status(3, false);
    cpu.cycle().expect("key wait faulted");
    assert_eq!(cpu.registers.pc, 0x200);
}

#[test]
fn drw_beyond_memory_is_fatal() {
    let mut cpu = cpu_with_rom(&[0xAF, 0xFF, 0xD0, 0x05]);
    cpu.cycle().expect("ld i faulted");
    assert_eq!(cpu.cycle(), Err(CpuError::ResourceExhausted));
}
