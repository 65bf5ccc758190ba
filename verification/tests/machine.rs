use chip8::machine::CycleError;
use chip8::machine::DecodeError;
use chip8::machine::FetchError;
use chip8::machine::Instr;
use chip8::machine::LoadError;
use chip8::machine::Machine;
use chip8::machine::StackError;
use chip8::machine::decode;

fn boot(rom: Vec<u8>) -> Machine {
    Machine::new(rom).expect("image fits")
}

fn run_ok(m: &mut Machine, cycles: usize) {
    for _ in 0..cycles {
        m.perform_cycle().expect("cycle succeeds");
    }
}

#[test]
fn load_bounds_largest_image_accepted() {
    let rom = vec![0u8; 3584];
    let m = Machine::new(rom).expect("largest image fits");
    assert_eq!(m.program_counter(), 512);
    assert_eq!(m.stack_pointer(), 0);
    assert!(!m.is_finished());
}

#[test]
fn load_bounds_oversized_image_refused() {
    let rom = vec![0u8; 3585];
    let r = Machine::new(rom);
    assert_eq!(r.err(), Some(LoadError::ImageTooLarge { size: 3585, max: 3584 }));
}

#[test]
fn image_bytes_land_at_load_offset() {
    let m = boot(vec![0xAB, 0xCD]);
    assert_eq!(m.read_byte(512), 0xAB);
    assert_eq!(m.read_byte(513), 0xCD);
    assert_eq!(m.read_byte(511), 0);
    assert_eq!(m.read_byte(514), 0);
}

#[test]
fn pc_advances_by_two_on_plain_opcode() {
    let mut m = boot(vec![0x60, 0xAB]);
    run_ok(&mut m, 1);
    assert_eq!(m.program_counter(), 514);
    assert_eq!(m.register(0), 0xAB);
}

#[test]
fn skip_on_equal_taken_advances_by_four() {
    let mut m = boot(vec![0x30, 0x00]);
    run_ok(&mut m, 1);
    assert_eq!(m.program_counter(), 516);
}

#[test]
fn skip_on_equal_not_taken_advances_by_two() {
    let mut m = boot(vec![0x30, 0x07]);
    run_ok(&mut m, 1);
    assert_eq!(m.program_counter(), 514);
}

#[test]
fn skip_on_not_equal() {
    let mut m = boot(vec![0x40, 0x07]);
    run_ok(&mut m, 1);
    assert_eq!(m.program_counter(), 516);
}

#[test]
fn arithmetic_wraparound_sets_carry() {
    // V0 = 0xFF, V1 = 0x01, V0 += V1.
    let mut m = boot(vec![0x60, 0xFF, 0x61, 0x01, 0x80, 0x14]);
    run_ok(&mut m, 3);
    assert_eq!(m.register(0), 0x00);
    assert_eq!(m.register(15), 1);
}

#[test]
fn addition_without_overflow_clears_carry() {
    let mut m = boot(vec![0x60, 0x05, 0x61, 0x03, 0x80, 0x14]);
    run_ok(&mut m, 3);
    assert_eq!(m.register(0), 8);
    assert_eq!(m.register(15), 0);
}

#[test]
fn subtraction_borrow_flags() {
    // 10 - 5: no borrow, flag 1.
    let mut m = boot(vec![0x60, 0x0A, 0x61, 0x05, 0x80, 0x15]);
    run_ok(&mut m, 3);
    assert_eq!(m.register(0), 5);
    assert_eq!(m.register(15), 1);
    // 5 - 10 wraps: borrow, flag 0.
    let mut m = boot(vec![0x60, 0x05, 0x61, 0x0A, 0x80, 0x15]);
    run_ok(&mut m, 3);
    assert_eq!(m.register(0), 251);
    assert_eq!(m.register(15), 0);
}

#[test]
fn shifts_record_dropped_bit() {
    // V0 = 0b1000_0001, shift right then left.
    let mut m = boot(vec![0x60, 0x81, 0x80, 0x06]);
    run_ok(&mut m, 2);
    assert_eq!(m.register(0), 0x40);
    assert_eq!(m.register(15), 1);
    let mut m = boot(vec![0x60, 0x81, 0x80, 0x0E]);
    run_ok(&mut m, 2);
    assert_eq!(m.register(0), 0x02);
    assert_eq!(m.register(15), 1);
}

#[test]
fn bitwise_ops() {
    let mut m = boot(vec![0x60, 0x0C, 0x61, 0x0A, 0x80, 0x11]);
    run_ok(&mut m, 3);
    assert_eq!(m.register(0), 0x0E);
    let mut m = boot(vec![0x60, 0x0C, 0x61, 0x0A, 0x80, 0x12]);
    run_ok(&mut m, 3);
    assert_eq!(m.register(0), 0x08);
    let mut m = boot(vec![0x60, 0x0C, 0x61, 0x0A, 0x80, 0x13]);
    run_ok(&mut m, 3);
    assert_eq!(m.register(0), 0x06);
}

#[test]
fn stack_round_trip_restores_pc_and_depth() {
    // Call a subroutine at 0x204 that returns at once.
    let mut m = boot(vec![0x22, 0x04, 0x00, 0x00, 0x00, 0xEE]);
    run_ok(&mut m, 1);
    assert_eq!(m.program_counter(), 0x204);
    assert_eq!(m.stack_pointer(), 1);
    run_ok(&mut m, 1);
    assert_eq!(m.program_counter(), 514);
    assert_eq!(m.stack_pointer(), 0);
}

#[test]
fn stack_exhaustion_on_seventeenth_call() {
    // Seventeen consecutive calls, each to the next instruction.
    let mut rom: Vec<u8> = Vec::new();
    for k in 0..17u16 {
        let target = 512 + 2 * (k + 1);
        rom.push(0x20 | (target >> 8) as u8);
        rom.push((target & 0xFF) as u8);
    }
    let mut m = boot(rom);
    run_ok(&mut m, 16);
    assert_eq!(m.stack_pointer(), 16);
    assert!(!m.is_finished());
    let r = m.perform_cycle();
    assert_eq!(r, Err(CycleError::Stack(StackError::Overflow)));
    assert!(m.is_finished());
    assert_eq!(m.stack_pointer(), 16);
}

#[test]
fn return_on_empty_stack_underflows() {
    let mut m = boot(vec![0x00, 0xEE]);
    let r = m.perform_cycle();
    assert_eq!(r, Err(CycleError::Stack(StackError::Underflow)));
    assert!(m.is_finished());
}

#[test]
fn timer_floor_never_negative() {
    // V0 = 3, delay timer = V0, then tick repeatedly.
    let mut m = boot(vec![0x60, 0x03, 0xF0, 0x15]);
    run_ok(&mut m, 2);
    let mut seen = Vec::new();
    seen.push(m.delay_timer());
    for _ in 0..5 {
        m.tick_timers();
        seen.push(m.delay_timer());
    }
    assert_eq!(seen, vec![3, 2, 1, 0, 0, 0]);
}

#[test]
fn sound_timer_ticks_independently() {
    let mut m = boot(vec![0x60, 0x02, 0xF0, 0x18]);
    run_ok(&mut m, 2);
    m.tick_timers();
    assert_eq!(m.sound_timer(), 1);
    assert_eq!(m.delay_timer(), 0);
    m.tick_timers();
    m.tick_timers();
    assert_eq!(m.sound_timer(), 0);
}

#[test]
fn delay_timer_read_back() {
    let mut m = boot(vec![0x60, 0x09, 0xF0, 0x15, 0xF1, 0x07]);
    run_ok(&mut m, 3);
    assert_eq!(m.register(1), 9);
}

#[test]
fn draw_sets_pixels_and_draw_again_restores() {
    // Sprite 0xFF at (0, 0), drawn twice from the same address.
    let mut m = boot(vec![
        0x60, 0x00, // V0 = 0
        0x61, 0x00, // V1 = 0
        0xA2, 0x0A, // I = 0x20A
        0xD0, 0x11, // draw 1 row at (V0, V1)
        0xD0, 0x11, // draw the same row again
        0xFF,       // sprite row: all eight bits set
    ]);
    run_ok(&mut m, 4);
    for x in 0..8 {
        assert!(m.pixel(x, 0));
    }
    assert!(!m.pixel(8, 0));
    assert_eq!(m.register(15), 0);
    run_ok(&mut m, 1);
    for x in 0..8 {
        assert!(!m.pixel(x, 0));
    }
    assert_eq!(m.register(15), 1);
}

#[test]
fn draw_wraps_around_the_edges() {
    // Draw at (60, 31): wraps to columns 0..4 and row 31 only (one row).
    let mut m = boot(vec![
        0x60, 0x3C, // V0 = 60
        0x61, 0x1F, // V1 = 31
        0xA2, 0x08, // I = 0x208
        0xD0, 0x11, // draw 1 row
        0xFF,
    ]);
    run_ok(&mut m, 4);
    for x in 60..64 {
        assert!(m.pixel(x, 31));
    }
    for x in 0..4 {
        assert!(m.pixel(x, 31));
    }
    assert!(!m.pixel(4, 31));
}

#[test]
fn clear_screen_turns_every_pixel_off() {
    let mut m = boot(vec![
        0x60, 0x00, 0x61, 0x00, 0xA2, 0x0A, 0xD0, 0x11, 0x00, 0xE0, 0xFF,
    ]);
    run_ok(&mut m, 5);
    for y in 0..32 {
        for x in 0..64 {
            assert!(!m.pixel(x, y));
        }
    }
}

#[test]
fn unknown_opcode_reports_and_changes_nothing_else() {
    let mut m = boot(vec![0x60, 0x55, 0xFF, 0xFF]);
    run_ok(&mut m, 1);
    let r = m.perform_cycle();
    assert_eq!(r, Err(CycleError::Decode(DecodeError::UnknownOpcode(0xFFFF))));
    assert!(m.is_finished());
    assert_eq!(m.program_counter(), 514);
    assert_eq!(m.register(0), 0x55);
    assert_eq!(m.stack_pointer(), 0);
    // A halted machine performs no further cycles.
    assert_eq!(m.perform_cycle(), Ok(()));
    assert_eq!(m.program_counter(), 514);
}

#[test]
fn fetch_past_end_of_memory_is_out_of_bounds() {
    let mut m = boot(vec![0x1F, 0xFF]);
    run_ok(&mut m, 1);
    assert_eq!(m.program_counter(), 0xFFF);
    let r = m.perform_cycle();
    assert_eq!(r, Err(CycleError::Fetch(FetchError::OutOfBounds { address: 0xFFF })));
    assert!(m.is_finished());
}

#[test]
fn halt_opcode_finishes_the_run() {
    let mut m = boot(vec![0x00, 0x00]);
    assert_eq!(m.perform_cycle(), Ok(()));
    assert!(m.is_finished());
    assert_eq!(m.program_counter(), 514);
}

#[test]
fn jump_with_offset_adds_register_zero() {
    let mut m = boot(vec![0x60, 0x06, 0xB2, 0x00]);
    run_ok(&mut m, 2);
    assert_eq!(m.program_counter(), 0x206);
}

#[test]
fn index_register_set_and_add() {
    let mut m = boot(vec![0xA1, 0x23, 0x60, 0x02, 0xF0, 0x1E]);
    run_ok(&mut m, 3);
    assert_eq!(m.index_register(), 0x125);
}

#[test]
fn bcd_stores_three_digits() {
    let mut m = boot(vec![0x60, 0x7B, 0xA3, 0x00, 0xF0, 0x33]);
    run_ok(&mut m, 3);
    assert_eq!(m.read_byte(0x300), 1);
    assert_eq!(m.read_byte(0x301), 2);
    assert_eq!(m.read_byte(0x302), 3);
}

#[test]
fn store_and_load_registers_round_trip() {
    let mut m = boot(vec![
        0x60, 0x11, // V0 = 0x11
        0x61, 0x22, // V1 = 0x22
        0xA3, 0x00, // I = 0x300
        0xF1, 0x55, // store V0..=V1
        0x60, 0x00, // V0 = 0
        0x61, 0x00, // V1 = 0
        0xF1, 0x65, // load V0..=V1
    ]);
    run_ok(&mut m, 7);
    assert_eq!(m.read_byte(0x300), 0x11);
    assert_eq!(m.read_byte(0x301), 0x22);
    assert_eq!(m.register(0), 0x11);
    assert_eq!(m.register(1), 0x22);
}

#[test]
fn key_skip_opcodes_read_the_bitmask() {
    let mut m = boot(vec![0x60, 0x05, 0xE0, 0x9E]);
    m.set_keys(1 << 5);
    run_ok(&mut m, 2);
    assert_eq!(m.program_counter(), 518);
    let mut m = boot(vec![0x60, 0x05, 0xE0, 0xA1]);
    m.set_keys(1 << 5);
    run_ok(&mut m, 2);
    assert_eq!(m.program_counter(), 516);
}

#[test]
fn decode_maps_the_instruction_families() {
    assert_eq!(decode(0x00E0), Instr::ClearScreen);
    assert_eq!(decode(0x00EE), Instr::Return);
    assert_eq!(decode(0x0000), Instr::Halt);
    assert_eq!(decode(0x1ABC), Instr::Jump(0xABC));
    assert_eq!(decode(0x2ABC), Instr::Call(0xABC));
    assert_eq!(decode(0x3A42), Instr::SkipEqImm(0xA, 0x42));
    assert_eq!(decode(0x6A42), Instr::SetImm(0xA, 0x42));
    assert_eq!(decode(0x8AB4), Instr::AddReg(0xA, 0xB));
    assert_eq!(decode(0xDAB7), Instr::Draw(0xA, 0xB, 7));
    assert_eq!(decode(0xFA65), Instr::Load(0xA));
    assert_eq!(decode(0x5AB1), Instr::Unknown(0x5AB1));
    assert_eq!(decode(0xC000), Instr::Unknown(0xC000));
    assert_eq!(decode(0xE0FF), Instr::Unknown(0xE0FF));
}
