use chip8::Chip8Emulator;
use chip8::Fault;
use chip8::TickOutcome;

#[test]
fn it_works() {
    let mut cpu = Chip8Emulator::new();
    cpu.set_register(0, 5);
    cpu.set_register(1, 10);

    let data: [u8; 6] = [
        0x21, 0x00, // Call (0x100)
        0x21, 0x00, // Call (0x100)
        0x00, 0x00, // End
    ];
    cpu.load_data(&data);

    let func_data: [u8; 6] = [
        0x80, 0x14, // Add(0, 1)
        0x80, 0x14, // Add(0, 1)
        0x00, 0xEE, // Return
    ];
    cpu.load_data_range(&func_data, 0x100);
    loop {
        match cpu.tick() {
            TickOutcome::Continue => {}
            TickOutcome::Halt => break,
            TickOutcome::Fault(f) => panic!("unexpected fault: {:?}", f),
        }
    }
    assert_eq!(cpu.get_register(0), 45);
}

#[test]
fn load_rom_pong() {
    // A small program in the spirit of a game loop: draw the font glyph of
    // VA at (V1, V2), bump VA, repeat forever.
    let mut cpu = Chip8Emulator::new();
    let bytes: [u8; 10] = [
        0x6A, 0x02, // VA = 2
        0xFA, 0x29, // I = font address of VA's low nibble
        0xD1, 0x25, // draw 5 rows at (V1, V2)
        0x7A, 0x01, // VA += 1
        0x12, 0x02, // jump back to the font lookup
    ];
    cpu.load_data(&bytes);
    let mut counter = 0;
    while counter < 10000 {
        match cpu.tick() {
            TickOutcome::Continue => {}
            TickOutcome::Halt => break,
            TickOutcome::Fault(f) => panic!("unexpected fault: {:?}", f),
        }
        cpu.tick_timers();
        counter += 1;
    }
}

#[test]
fn load_rom_guess() {
    // A small program in the spirit of a key-driven game: poll a key and
    // loop until it is pressed.
    let mut cpu = Chip8Emulator::new();
    let bytes: [u8; 6] = [
        0x60, 0x05, // V0 = 5
        0xE0, 0x9E, // skip next if key V0 is pressed
        0x12, 0x02, // jump back to the poll
    ];
    cpu.load_data(&bytes);
    let mut counter = 0;
    while counter < 10000 {
        match cpu.tick() {
            TickOutcome::Continue => {}
            TickOutcome::Halt => break,
            TickOutcome::Fault(f) => panic!("unexpected fault: {:?}", f),
        }
        cpu.tick_timers();
        counter += 1;
    }
}

#[test]
fn load_rom_maze() {
    // A small program in the spirit of a maze generator: draw a random one
    // of two patterns, forever.
    let mut cpu = Chip8Emulator::new();
    let bytes: [u8; 8] = [
        0xC0, 0x01, // V0 = random & 1
        0x30, 0x01, // skip next if V0 == 1
        0x12, 0x00, // jump to start
        0x12, 0x00, // jump to start
    ];
    cpu.load_data(&bytes);
    let mut counter = 0;
    while counter < 10000 {
        match cpu.tick() {
            TickOutcome::Continue => {}
            TickOutcome::Halt => break,
            TickOutcome::Fault(f) => panic!("unexpected fault: {:?}", f),
        }
        cpu.tick_timers();
        counter += 1;
    }
}

#[test]
fn sprite_draw_wraps_at_the_edges() {
    // An 8x1 all-bits sprite anchored at the far corner (63, 31) wraps onto
    // columns {63, 0..=6} of row 31 and nowhere else.
    let mut cpu = Chip8Emulator::new();
    cpu.set_register(0, 63);
    cpu.set_register(1, 31);
    cpu.load_data_range(&[0xFF], 0x300);
    let program: [u8; 6] = [
        0xA3, 0x00, // I = 0x300
        0xD0, 0x11, // draw 1 row at (V0, V1)
        0x00, 0x00, // End
    ];
    cpu.load_data(&program);
    assert_eq!(cpu.tick(), TickOutcome::Continue);
    assert_eq!(cpu.tick(), TickOutcome::Continue);
    assert_eq!(cpu.tick(), TickOutcome::Halt);

    let display = cpu.get_display();
    let lit_cols = [63usize, 0, 1, 2, 3, 4, 5, 6];
    for x in 0..64usize {
        for y in 0..32usize {
            let expected = y == 31 && lit_cols.contains(&x);
            assert_eq!(display[x + 64 * y], expected, "pixel ({}, {})", x, y);
        }
    }
    // Nothing was lit before, so no collision.
    assert_eq!(cpu.get_register(0xF), 0);
}

#[test]
fn drawing_twice_restores_the_framebuffer() {
    // XOR is its own inverse: the second identical draw puts every pixel
    // back and reports a full collision.
    let mut cpu = Chip8Emulator::new();
    cpu.set_register(0, 10);
    cpu.set_register(1, 5);
    cpu.load_data_range(&[0xA5, 0x5A], 0x300);
    let program: [u8; 8] = [
        0xA3, 0x00, // I = 0x300
        0xD0, 0x12, // draw 2 rows at (V0, V1)
        0xD0, 0x12, // draw the same sprite again
        0x00, 0x00, // End
    ];
    cpu.load_data(&program);
    assert_eq!(cpu.tick(), TickOutcome::Continue);
    assert_eq!(cpu.tick(), TickOutcome::Continue);
    assert_eq!(cpu.get_register(0xF), 0);
    assert_eq!(cpu.tick(), TickOutcome::Continue);
    assert_eq!(cpu.tick(), TickOutcome::Halt);

    let display = cpu.get_display();
    for idx in 0..display.len() {
        assert!(!display[idx]);
    }
    // The first draw set bits, so the second one erased them: collision.
    assert_eq!(cpu.get_register(0xF), 1);
}

#[test]
fn key_wait_blocks_until_a_key_arrives() {
    // The key-wait instruction never advances past itself while no key is
    // pressed; the first press is recorded on the next step.
    let mut cpu = Chip8Emulator::new();
    let program: [u8; 4] = [
        0xF5, 0x0A, // wait for a key, store it in V5
        0x00, 0x00, // End
    ];
    cpu.load_data(&program);
    for _ in 0..5 {
        assert_eq!(cpu.tick(), TickOutcome::Continue);
        assert_eq!(cpu.get_program_counter(), 0x200);
    }
    cpu.keypress(7, true);
    assert_eq!(cpu.tick(), TickOutcome::Continue);
    assert_eq!(cpu.get_program_counter(), 0x202);
    assert_eq!(cpu.get_register(5), 7);
}

#[test]
fn key_wait_records_the_lowest_pressed_key() {
    let mut cpu = Chip8Emulator::new();
    let program: [u8; 4] = [
        0xF0, 0x0A, // wait for a key, store it in V0
        0x00, 0x00, // End
    ];
    cpu.load_data(&program);
    cpu.keypress(9, true);
    cpu.keypress(4, true);
    assert_eq!(cpu.tick(), TickOutcome::Continue);
    assert_eq!(cpu.get_register(0), 4);
}

#[test]
fn sound_timer_counts_down_to_its_stop_edge() {
    // Setting the sound timer to 1 and ticking once reaches the stop-tone
    // edge; a further tick leaves it at 0.
    let mut cpu = Chip8Emulator::new();
    let program: [u8; 6] = [
        0x61, 0x01, // V1 = 1
        0xF1, 0x18, // sound timer = V1
        0x00, 0x00, // End
    ];
    cpu.load_data(&program);
    assert_eq!(cpu.tick(), TickOutcome::Continue);
    assert_eq!(cpu.tick(), TickOutcome::Continue);
    assert_eq!(cpu.get_sound_timer(), 1);
    cpu.tick_timers();
    assert_eq!(cpu.get_sound_timer(), 0);
    cpu.tick_timers();
    assert_eq!(cpu.get_sound_timer(), 0);
}

#[test]
fn delay_timer_sticks_at_zero() {
    let mut cpu = Chip8Emulator::new();
    let program: [u8; 6] = [
        0x60, 0x03, // V0 = 3
        0xF0, 0x15, // delay timer = V0
        0x00, 0x00, // End
    ];
    cpu.load_data(&program);
    assert_eq!(cpu.tick(), TickOutcome::Continue);
    assert_eq!(cpu.tick(), TickOutcome::Continue);
    assert_eq!(cpu.get_delay_timer(), 3);
    for _ in 0..5 {
        cpu.tick_timers();
    }
    assert_eq!(cpu.get_delay_timer(), 0);
}

#[test]
fn empty_stack_return_faults() {
    let mut cpu = Chip8Emulator::new();
    cpu.load_data(&[0x00, 0xEE]);
    assert_eq!(cpu.tick(), TickOutcome::Fault(Fault::StackUnderflow));
}

#[test]
fn seventeenth_nested_call_faults() {
    // A subroutine that calls itself fills the 16-entry stack, then faults.
    let mut cpu = Chip8Emulator::new();
    cpu.load_data(&[0x13, 0x00]); // jump 0x300
    cpu.load_data_range(&[0x23, 0x00], 0x300); // call 0x300: calls itself
    assert_eq!(cpu.tick(), TickOutcome::Continue);
    for _ in 0..16 {
        assert_eq!(cpu.tick(), TickOutcome::Continue);
    }
    assert_eq!(cpu.tick(), TickOutcome::Fault(Fault::StackOverflow));
}

#[test]
fn unknown_opcode_faults() {
    let mut cpu = Chip8Emulator::new();
    cpu.load_data(&[0x00, 0x01]);
    assert_eq!(cpu.tick(), TickOutcome::Fault(Fault::UnknownOpcode));
}

#[test]
fn program_counter_leaving_memory_faults() {
    let mut cpu = Chip8Emulator::new();
    cpu.load_data(&[0x1F, 0xFF]); // jump 0xFFF
    assert_eq!(cpu.tick(), TickOutcome::Continue);
    assert_eq!(cpu.tick(), TickOutcome::Fault(Fault::OutOfBounds));
}

#[test]
fn bcd_store_beyond_memory_faults() {
    let mut cpu = Chip8Emulator::new();
    let program: [u8; 4] = [
        0xAF, 0xFF, // I = 0xFFF
        0xF0, 0x33, // BCD of V0 at I..I+2: out of bounds
    ];
    cpu.load_data(&program);
    assert_eq!(cpu.tick(), TickOutcome::Continue);
    assert_eq!(cpu.tick(), TickOutcome::Fault(Fault::OutOfBounds));
}

#[test]
fn lit_points_lists_exactly_the_lit_pixels() {
    let mut cpu = Chip8Emulator::new();
    cpu.set_register(0, 1);
    cpu.set_register(1, 2);
    cpu.load_data_range(&[0b1000_0001], 0x300);
    let program: [u8; 6] = [
        0xA3, 0x00, // I = 0x300
        0xD0, 0x11, // draw 1 row at (1, 2)
        0x00, 0x00, // End
    ];
    cpu.load_data(&program);
    while cpu.tick() == TickOutcome::Continue {}
    let points = cpu.lit_points();
    assert_eq!(points, vec![(1u8, 2u8), (8u8, 2u8)]);
}
