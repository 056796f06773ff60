use chip8::Chip8Emulator;
use chip8::TickOutcome;

fn run_program(cpu: &mut Chip8Emulator, program: &[u8]) {
    cpu.load_data(program);
    loop {
        match cpu.tick() {
            TickOutcome::Continue => {}
            TickOutcome::Halt => break,
            TickOutcome::Fault(f) => panic!("unexpected fault: {:?}", f),
        }
    }
}

#[test]
fn add_with_carry_wraps_and_flags() {
    let mut cpu = Chip8Emulator::new();
    cpu.set_register(0, 200);
    cpu.set_register(1, 100);
    run_program(&mut cpu, &[0x80, 0x14, 0x00, 0x00]);
    assert_eq!(cpu.get_register(0), 44); // (200 + 100) mod 256
    assert_eq!(cpu.get_register(0xF), 1);
}

#[test]
fn add_without_carry_clears_the_flag() {
    let mut cpu = Chip8Emulator::new();
    cpu.set_register(0, 150);
    cpu.set_register(1, 50);
    cpu.set_register(0xF, 1);
    run_program(&mut cpu, &[0x80, 0x14, 0x00, 0x00]);
    assert_eq!(cpu.get_register(0), 200);
    assert_eq!(cpu.get_register(0xF), 0);
}

#[test]
fn subtract_without_borrow_sets_the_flag() {
    // Equal operands: no borrow, so the flag is 1 and the result 0.
    let mut cpu = Chip8Emulator::new();
    cpu.set_register(0, 7);
    cpu.set_register(1, 7);
    run_program(&mut cpu, &[0x80, 0x15, 0x00, 0x00]);
    assert_eq!(cpu.get_register(0), 0);
    assert_eq!(cpu.get_register(0xF), 1);
}

#[test]
fn subtract_with_borrow_clears_the_flag() {
    let mut cpu = Chip8Emulator::new();
    cpu.set_register(0, 5);
    cpu.set_register(1, 10);
    run_program(&mut cpu, &[0x80, 0x15, 0x00, 0x00]);
    assert_eq!(cpu.get_register(0), 251); // (5 - 10) mod 256
    assert_eq!(cpu.get_register(0xF), 0);
}

#[test]
fn reverse_subtract_swaps_the_operands() {
    let mut cpu = Chip8Emulator::new();
    cpu.set_register(0, 5);
    cpu.set_register(1, 10);
    run_program(&mut cpu, &[0x80, 0x17, 0x00, 0x00]);
    assert_eq!(cpu.get_register(0), 5); // 10 - 5
    assert_eq!(cpu.get_register(0xF), 1);
}

#[test]
fn shift_right_reports_the_low_bit() {
    let mut cpu = Chip8Emulator::new();
    cpu.set_register(0, 5);
    run_program(&mut cpu, &[0x80, 0x16, 0x00, 0x00]);
    assert_eq!(cpu.get_register(0), 2);
    assert_eq!(cpu.get_register(0xF), 1);
}

#[test]
fn shift_left_reports_the_high_bit() {
    let mut cpu = Chip8Emulator::new();
    cpu.set_register(0, 0x81);
    run_program(&mut cpu, &[0x80, 0x1E, 0x00, 0x00]);
    assert_eq!(cpu.get_register(0), 0x02);
    assert_eq!(cpu.get_register(0xF), 1);
}

#[test]
fn bitwise_instructions_combine_registers() {
    let mut cpu = Chip8Emulator::new();
    cpu.set_register(0, 0b1100);
    cpu.set_register(1, 0b1010);
    run_program(&mut cpu, &[0x80, 0x11, 0x00, 0x00]);
    assert_eq!(cpu.get_register(0), 0b1110);

    let mut cpu = Chip8Emulator::new();
    cpu.set_register(0, 0b1100);
    cpu.set_register(1, 0b1010);
    run_program(&mut cpu, &[0x80, 0x12, 0x00, 0x00]);
    assert_eq!(cpu.get_register(0), 0b1000);

    let mut cpu = Chip8Emulator::new();
    cpu.set_register(0, 0b1100);
    cpu.set_register(1, 0b1010);
    run_program(&mut cpu, &[0x80, 0x13, 0x00, 0x00]);
    assert_eq!(cpu.get_register(0), 0b0110);
}

#[test]
fn immediate_add_wraps_without_a_flag() {
    let mut cpu = Chip8Emulator::new();
    cpu.set_register(0, 250);
    cpu.set_register(0xF, 9);
    run_program(&mut cpu, &[0x70, 0x0A, 0x00, 0x00]);
    assert_eq!(cpu.get_register(0), 4); // (250 + 10) mod 256
    assert_eq!(cpu.get_register(0xF), 9); // untouched
}

#[test]
fn conditional_skips_follow_the_comparisons() {
    // 3xkk skips on equality: V0 == 5 skips the jump into a loop.
    let mut cpu = Chip8Emulator::new();
    cpu.set_register(0, 5);
    let program: [u8; 8] = [
        0x30, 0x05, // skip next if V0 == 5
        0x12, 0x02, // (skipped) jump to self
        0x61, 0x01, // V1 = 1
        0x00, 0x00, // End
    ];
    run_program(&mut cpu, &program);
    assert_eq!(cpu.get_register(1), 1);

    // 4xkk skips on inequality.
    let mut cpu = Chip8Emulator::new();
    cpu.set_register(0, 6);
    let program: [u8; 8] = [
        0x40, 0x05, // skip next if V0 != 5
        0x12, 0x02, // (skipped) jump to self
        0x61, 0x02, // V1 = 2
        0x00, 0x00, // End
    ];
    run_program(&mut cpu, &program);
    assert_eq!(cpu.get_register(1), 2);

    // 5xy0 and 9xy0 compare two registers.
    let mut cpu = Chip8Emulator::new();
    cpu.set_register(0, 9);
    cpu.set_register(1, 9);
    let program: [u8; 8] = [
        0x50, 0x10, // skip next if V0 == V1
        0x12, 0x02, // (skipped) jump to self
        0x90, 0x20, // skip next if V0 != V2 (9 != 0: skips)
        0x12, 0x06, // (skipped) jump to self
    ];
    cpu.load_data(&program);
    assert_eq!(cpu.tick(), TickOutcome::Continue);
    assert_eq!(cpu.get_program_counter(), 0x204);
    assert_eq!(cpu.tick(), TickOutcome::Continue);
    assert_eq!(cpu.get_program_counter(), 0x208);
}

#[test]
fn jump_with_offset_adds_register_zero() {
    let mut cpu = Chip8Emulator::new();
    cpu.set_register(0, 4);
    cpu.load_data(&[0xB2, 0x02]); // jump to 0x202 + V0
    assert_eq!(cpu.tick(), TickOutcome::Continue);
    assert_eq!(cpu.get_program_counter(), 0x206);
}

#[test]
fn bcd_splits_the_decimal_digits() {
    let mut cpu = Chip8Emulator::new();
    cpu.set_register(0, 234);
    let program: [u8; 8] = [
        0xA3, 0x00, // I = 0x300
        0xF0, 0x33, // digits of V0 at I, I+1, I+2
        0xF2, 0x65, // load V0..V2 back from I
        0x00, 0x00, // End
    ];
    run_program(&mut cpu, &program);
    assert_eq!(cpu.get_register(0), 2);
    assert_eq!(cpu.get_register(1), 3);
    assert_eq!(cpu.get_register(2), 4);
}

#[test]
fn registers_store_each_value_in_turn() {
    // Fx55 copies V0, V1, V2 to consecutive cells: reloading from I+1
    // must see V1's value, not a repeated copy of another register.
    let mut cpu = Chip8Emulator::new();
    cpu.set_register(0, 1);
    cpu.set_register(1, 2);
    cpu.set_register(2, 3);
    let program: [u8; 10] = [
        0xA3, 0x00, // I = 0x300
        0xF2, 0x55, // store V0..V2 at I
        0xA3, 0x01, // I = 0x301
        0xF0, 0x65, // load V0 from I
        0x00, 0x00, // End
    ];
    run_program(&mut cpu, &program);
    assert_eq!(cpu.get_register(0), 2);
}

#[test]
fn font_address_points_at_the_glyph() {
    // The glyph is selected by the low nibble of the register; glyph 0xB
    // starts with the byte 0xE0.
    let mut cpu = Chip8Emulator::new();
    cpu.set_register(0, 0xAB);
    let program: [u8; 6] = [
        0xF0, 0x29, // I = font address of V0's low nibble
        0xF0, 0x65, // load V0 from I
        0x00, 0x00, // End
    ];
    run_program(&mut cpu, &program);
    assert_eq!(cpu.get_register(0), 0xE0);
}

#[test]
fn random_byte_is_masked_by_the_immediate() {
    let mut cpu = Chip8Emulator::new();
    cpu.set_register(0, 0xFF);
    run_program(&mut cpu, &[0xC0, 0x0F, 0x00, 0x00]);
    assert!(cpu.get_register(0) <= 0x0F);

    let mut cpu = Chip8Emulator::new();
    cpu.set_register(0, 0xFF);
    run_program(&mut cpu, &[0xC0, 0x00, 0x00, 0x00]);
    assert_eq!(cpu.get_register(0), 0);
}

#[test]
fn delay_timer_reads_back_through_a_register() {
    let mut cpu = Chip8Emulator::new();
    cpu.set_register(3, 42);
    let program: [u8; 6] = [
        0xF3, 0x15, // delay timer = V3
        0xF6, 0x07, // V6 = delay timer
        0x00, 0x00, // End
    ];
    run_program(&mut cpu, &program);
    assert_eq!(cpu.get_register(6), 42);
}

#[test]
fn key_skips_observe_the_keypad() {
    let mut cpu = Chip8Emulator::new();
    cpu.set_register(0, 4);
    cpu.keypress(4, true);
    cpu.load_data(&[0xE0, 0x9E]); // skip next if key V0 pressed
    assert_eq!(cpu.tick(), TickOutcome::Continue);
    assert_eq!(cpu.get_program_counter(), 0x204);

    let mut cpu = Chip8Emulator::new();
    cpu.set_register(0, 4);
    cpu.keypress(4, true);
    cpu.load_data(&[0xE0, 0xA1]); // skip next if key V0 not pressed
    assert_eq!(cpu.tick(), TickOutcome::Continue);
    assert_eq!(cpu.get_program_counter(), 0x202);

    let mut cpu = Chip8Emulator::new();
    cpu.set_register(0, 4);
    cpu.keypress(4, true);
    cpu.keypress(4, false); // pressed, then released again
    cpu.load_data(&[0xE0, 0xA1]);
    assert_eq!(cpu.tick(), TickOutcome::Continue);
    assert_eq!(cpu.get_program_counter(), 0x204);
}

#[test]
fn clear_display_turns_every_pixel_off() {
    let mut cpu = Chip8Emulator::new();
    cpu.set_register(0, 0);
    cpu.set_register(1, 0);
    cpu.load_data_range(&[0xFF, 0xFF], 0x300);
    let program: [u8; 8] = [
        0xA3, 0x00, // I = 0x300
        0xD0, 0x12, // draw 2 rows at (0, 0)
        0x00, 0xE0, // clear the display
        0x00, 0x00, // End
    ];
    run_program(&mut cpu, &program);
    let display = cpu.get_display();
    assert_eq!(display.len(), 64 * 32);
    for idx in 0..display.len() {
        assert!(!display[idx]);
    }
}

#[test]
fn add_to_address_register_accumulates() {
    // I grows by V0 twice; reading memory back through I observes the sum.
    let mut cpu = Chip8Emulator::new();
    cpu.set_register(0, 3);
    cpu.load_data_range(&[0x77], 0x306);
    let program: [u8; 10] = [
        0xA3, 0x00, // I = 0x300
        0xF0, 0x1E, // I += V0
        0xF0, 0x1E, // I += V0
        0xF1, 0x65, // load V0, V1 from I
        0x00, 0x00, // End
    ];
    run_program(&mut cpu, &program);
    assert_eq!(cpu.get_register(0), 0x77);
}
