use chirpy::machine::{Fault, System, SCREEN_SIZE};

fn machine_with(program: Vec<u8>) -> System {
    let mut system = System::default();
    system.copy_buffer_to_memory(program, 0x200);
    system
}

#[test]
fn test_initial_state() {
    let system = System::default();
    assert_eq!(system.program_counter(), 0x200);
    assert_eq!(system.index_register(), 0);
    assert_eq!(system.delay_timer(), 0);
    assert_eq!(system.sound_timer(), 0);
    for i in 0..16 {
        assert_eq!(system.register(i), 0);
    }
    assert_eq!(system.framebuffer().len(), SCREEN_SIZE);
    assert!(system.framebuffer().iter().all(|&p| p == 0));
    // Sprite table: glyph 0 starts with 0xF0, the last row of glyph F is 0x80.
    assert_eq!(system.memory_at(0x50), 0xF0);
    assert_eq!(system.memory_at(0x51), 0x90);
    assert_eq!(system.memory_at(0x9F), 0x80);
    assert_eq!(system.memory_at(0x4F), 0x00);
    assert_eq!(system.memory_at(0xA0), 0x00);
}

#[test]
fn test_copy_buffer_to_memory() {
    let mut system = System::default();
    system.copy_buffer_to_memory(vec![1, 2, 3], 0x600);
    assert_eq!(system.memory_at(0x5FF), 0);
    assert_eq!(system.memory_at(0x600), 1);
    assert_eq!(system.memory_at(0x601), 2);
    assert_eq!(system.memory_at(0x602), 3);
    assert_eq!(system.memory_at(0x603), 0);
}

// Register-set then register-add: 5 + 3 leaves 8 in the register and the
// program counter two instructions further on.
#[test]
fn test_set_then_add() {
    let mut system = machine_with(vec![0x60, 0x05, 0x70, 0x03]);
    assert_eq!(system.cycle(), Ok(false));
    assert_eq!(system.register(0), 5);
    assert_eq!(system.program_counter(), 0x202);
    assert_eq!(system.cycle(), Ok(false));
    assert_eq!(system.register(0), 8);
    assert_eq!(system.program_counter(), 0x204);
}

// `A2 2A` sets the index register to 0x22A and advances by 2.
#[test]
fn test_set_index_register() {
    let mut system = machine_with(vec![0xA2, 0x2A]);
    assert_eq!(system.cycle(), Ok(false));
    assert_eq!(system.index_register(), 0x22A);
    assert_eq!(system.program_counter(), 0x202);
}

// `00E0` clears every framebuffer pixel.
#[test]
fn test_clear_screen() {
    // Point the index at glyph 0 of the sprite table, draw one row, clear.
    let mut system = machine_with(vec![0xA0, 0x50, 0xD0, 0x01, 0x00, 0xE0]);
    assert_eq!(system.cycle(), Ok(false));
    assert_eq!(system.cycle(), Ok(false));
    // Glyph 0's first row is 0xF0: four set pixels at the screen origin.
    assert_eq!(&system.framebuffer()[0..8], &[1, 1, 1, 1, 0, 0, 0, 0]);
    assert_eq!(system.cycle(), Ok(false));
    assert!(system.framebuffer().iter().all(|&p| p == 0));
    assert_eq!(system.program_counter(), 0x206);
}

// A call followed by a return lands just after the call.
#[test]
fn test_call_and_return() {
    let mut system = machine_with(vec![0x23, 0x00]);
    system.copy_buffer_to_memory(vec![0x00, 0xEE], 0x300);
    assert_eq!(system.cycle(), Ok(false));
    assert_eq!(system.program_counter(), 0x300);
    assert_eq!(system.cycle(), Ok(false));
    assert_eq!(system.program_counter(), 0x202);
}

// Add 255 + 2 wraps to 1 with the carry flag set.
#[test]
fn test_add_with_carry() {
    let mut system = machine_with(vec![0x60, 0xFF, 0x61, 0x02, 0x80, 0x14]);
    for _ in 0..3 {
        assert_eq!(system.cycle(), Ok(false));
    }
    assert_eq!(system.register(0), 1);
    assert_eq!(system.register(15), 1);
}

// Subtract 3 - 5 wraps to 254 with the flag cleared (a borrow occurred).
#[test]
fn test_sub_with_borrow() {
    let mut system = machine_with(vec![0x60, 0x03, 0x61, 0x05, 0x80, 0x15]);
    for _ in 0..3 {
        assert_eq!(system.cycle(), Ok(false));
    }
    assert_eq!(system.register(0), 254);
    assert_eq!(system.register(15), 0);
}

// Drawing the same fully-set 8-pixel row twice at the same spot reports a
// collision on the second draw and leaves the pixels clear.
#[test]
fn test_draw_twice_collides() {
    let mut system = machine_with(vec![0xA4, 0x00, 0xD0, 0x01, 0xD0, 0x01]);
    system.copy_buffer_to_memory(vec![0xFF], 0x400);
    assert_eq!(system.cycle(), Ok(false));
    assert_eq!(system.cycle(), Ok(false));
    assert_eq!(system.register(15), 0);
    assert_eq!(&system.framebuffer()[0..8], &[1, 1, 1, 1, 1, 1, 1, 1]);
    assert_eq!(system.cycle(), Ok(false));
    assert_eq!(system.register(15), 1);
    assert_eq!(&system.framebuffer()[0..8], &[0, 0, 0, 0, 0, 0, 0, 0]);
}

// A sprite drawn near the right edge wraps around to the left, per pixel.
#[test]
fn test_draw_wraps_horizontally() {
    let mut system = machine_with(vec![0x60, 0x3C, 0xA4, 0x00, 0xD0, 0x11]);
    system.copy_buffer_to_memory(vec![0xFF], 0x400);
    for _ in 0..3 {
        assert_eq!(system.cycle(), Ok(false));
    }
    // Columns 60..63 and, wrapped, 0..3 of row 0 are set.
    assert_eq!(&system.framebuffer()[60..64], &[1, 1, 1, 1]);
    assert_eq!(&system.framebuffer()[0..4], &[1, 1, 1, 1]);
    assert_eq!(system.framebuffer()[4], 0);
    assert_eq!(system.framebuffer()[59], 0);
}

// Decimal store of 215 writes hundreds, tens, ones in that order.
#[test]
fn test_decimal_store() {
    let mut system = machine_with(vec![0x60, 0xD7, 0xA3, 0x00, 0xF0, 0x33]);
    for _ in 0..3 {
        assert_eq!(system.cycle(), Ok(false));
    }
    assert_eq!(system.memory_at(0x300), 2);
    assert_eq!(system.memory_at(0x301), 1);
    assert_eq!(system.memory_at(0x302), 5);
}

#[test]
fn test_decimal_store_small_value() {
    let mut system = machine_with(vec![0x60, 0x07, 0xA3, 0x00, 0xF0, 0x33]);
    for _ in 0..3 {
        assert_eq!(system.cycle(), Ok(false));
    }
    assert_eq!(system.memory_at(0x300), 0);
    assert_eq!(system.memory_at(0x301), 0);
    assert_eq!(system.memory_at(0x302), 7);
}

// Block store of registers 0..3 followed by block load from the same
// address restores the four values; the index register is untouched.
#[test]
fn test_block_store_then_load() {
    let mut system = machine_with(vec![
        0x60, 0x01, 0x61, 0x02, 0x62, 0x03, 0x63, 0x04, // registers 1,2,3,4
        0xA3, 0x00, // index at 0x300
        0xF3, 0x55, // store registers 0..=3
        0x60, 0x00, 0x61, 0x00, 0x62, 0x00, 0x63, 0x00, // zero them
        0xF3, 0x65, // load registers 0..=3 back
    ]);
    for _ in 0..11 {
        assert_eq!(system.cycle(), Ok(false));
    }
    assert_eq!(system.register(0), 1);
    assert_eq!(system.register(1), 2);
    assert_eq!(system.register(2), 3);
    assert_eq!(system.register(3), 4);
    assert_eq!(system.index_register(), 0x300);
    assert_eq!(system.memory_at(0x300), 1);
    assert_eq!(system.memory_at(0x303), 4);
}

#[test]
fn test_conditional_skips() {
    // 3xkk: equal immediate skips.
    let mut system = machine_with(vec![0x30, 0x00]);
    assert_eq!(system.cycle(), Ok(false));
    assert_eq!(system.program_counter(), 0x204);
    // 3xkk: unequal immediate does not skip.
    let mut system = machine_with(vec![0x30, 0x01]);
    assert_eq!(system.cycle(), Ok(false));
    assert_eq!(system.program_counter(), 0x202);
    // 4xkk: unequal immediate skips.
    let mut system = machine_with(vec![0x40, 0x01]);
    assert_eq!(system.cycle(), Ok(false));
    assert_eq!(system.program_counter(), 0x204);
    // 5xy0: equal registers skip.
    let mut system = machine_with(vec![0x50, 0x10]);
    assert_eq!(system.cycle(), Ok(false));
    assert_eq!(system.program_counter(), 0x204);
    // 9xy0: unequal registers skip.
    let mut system = machine_with(vec![0x60, 0x01, 0x90, 0x10]);
    assert_eq!(system.cycle(), Ok(false));
    assert_eq!(system.cycle(), Ok(false));
    assert_eq!(system.program_counter(), 0x206);
}

#[test]
fn test_alu_bitwise_and_shifts() {
    // OR, AND, XOR on 0b1100 and 0b1010.
    let mut system = machine_with(vec![0x60, 0x0C, 0x61, 0x0A, 0x80, 0x11]);
    for _ in 0..3 {
        assert_eq!(system.cycle(), Ok(false));
    }
    assert_eq!(system.register(0), 0x0E);
    let mut system = machine_with(vec![0x60, 0x0C, 0x61, 0x0A, 0x80, 0x12]);
    for _ in 0..3 {
        assert_eq!(system.cycle(), Ok(false));
    }
    assert_eq!(system.register(0), 0x08);
    let mut system = machine_with(vec![0x60, 0x0C, 0x61, 0x0A, 0x80, 0x13]);
    for _ in 0..3 {
        assert_eq!(system.cycle(), Ok(false));
    }
    assert_eq!(system.register(0), 0x06);
    // Shift right keeps the dropped bit in the flag register.
    let mut system = machine_with(vec![0x60, 0x05, 0x80, 0x06]);
    assert_eq!(system.cycle(), Ok(false));
    assert_eq!(system.cycle(), Ok(false));
    assert_eq!(system.register(0), 2);
    assert_eq!(system.register(15), 1);
    // Shift left keeps the dropped high bit in the flag register.
    let mut system = machine_with(vec![0x60, 0x81, 0x80, 0x0E]);
    assert_eq!(system.cycle(), Ok(false));
    assert_eq!(system.cycle(), Ok(false));
    assert_eq!(system.register(0), 0x02);
    assert_eq!(system.register(15), 1);
    // Reversed subtract: 8xy7 computes other minus own.
    let mut system = machine_with(vec![0x60, 0x02, 0x61, 0x07, 0x80, 0x17]);
    for _ in 0..3 {
        assert_eq!(system.cycle(), Ok(false));
    }
    assert_eq!(system.register(0), 5);
    assert_eq!(system.register(15), 1);
}

#[test]
fn test_jumps() {
    // 1nnn: plain jump.
    let mut system = machine_with(vec![0x13, 0x21]);
    assert_eq!(system.cycle(), Ok(false));
    assert_eq!(system.program_counter(), 0x321);
    // Bnnn: jump plus register 0.
    let mut system = machine_with(vec![0x60, 0x05, 0xB3, 0x00]);
    assert_eq!(system.cycle(), Ok(false));
    assert_eq!(system.cycle(), Ok(false));
    assert_eq!(system.program_counter(), 0x305);
}

// The random register instruction masked with zero is deterministic.
#[test]
fn test_random_masked_to_zero() {
    let mut system = machine_with(vec![0xC0, 0x00]);
    assert_eq!(system.cycle(), Ok(false));
    assert_eq!(system.register(0), 0);
    assert_eq!(system.program_counter(), 0x202);
}

// Key wait spins without advancing until a key is latched.
#[test]
fn test_key_wait() {
    let mut system = machine_with(vec![0xF0, 0x0A]);
    system.set_key(0xff);
    assert_eq!(system.cycle(), Ok(false));
    assert_eq!(system.program_counter(), 0x200);
    assert_eq!(system.cycle(), Ok(false));
    assert_eq!(system.program_counter(), 0x200);
    system.set_key(0x5);
    assert_eq!(system.cycle(), Ok(false));
    assert_eq!(system.register(0), 5);
    assert_eq!(system.program_counter(), 0x202);
}

#[test]
fn test_key_skips() {
    // Ex9E skips when the latched key equals the register.
    let mut system = machine_with(vec![0x60, 0x07, 0xE0, 0x9E]);
    system.set_key(0x7);
    assert_eq!(system.cycle(), Ok(false));
    assert_eq!(system.cycle(), Ok(false));
    assert_eq!(system.program_counter(), 0x206);
    // ExA1 skips when it does not.
    let mut system = machine_with(vec![0x60, 0x07, 0xE0, 0xA1]);
    system.set_key(0x3);
    assert_eq!(system.cycle(), Ok(false));
    assert_eq!(system.cycle(), Ok(false));
    assert_eq!(system.program_counter(), 0x206);
}

#[test]
fn test_timers_and_tone() {
    let mut system = machine_with(vec![0x60, 0x05, 0xF0, 0x15, 0x61, 0x02, 0xF1, 0x18]);
    assert_eq!(system.cycle(), Ok(false));
    assert_eq!(system.cycle(), Ok(false));
    assert_eq!(system.cycle(), Ok(false));
    // Setting a non-zero sound timer asks for the tone to start.
    assert_eq!(system.cycle(), Ok(true));
    assert_eq!(system.delay_timer(), 5);
    assert_eq!(system.sound_timer(), 2);
    // Ticks decay both timers; the stop signal comes once the sound timer
    // has already run out.
    assert_eq!(system.tick_timers(), false);
    assert_eq!(system.delay_timer(), 4);
    assert_eq!(system.sound_timer(), 1);
    assert_eq!(system.tick_timers(), false);
    assert_eq!(system.sound_timer(), 0);
    assert_eq!(system.tick_timers(), true);
    assert_eq!(system.delay_timer(), 2);
    assert_eq!(system.sound_timer(), 0);
}

#[test]
fn test_delay_timer_read() {
    let mut system = machine_with(vec![0x60, 0x07, 0xF0, 0x15, 0xF1, 0x07]);
    for _ in 0..3 {
        assert_eq!(system.cycle(), Ok(false));
    }
    assert_eq!(system.register(1), 7);
}

#[test]
fn test_index_arithmetic() {
    // Fx1E adds a register into the index register.
    let mut system = machine_with(vec![0xA0, 0x10, 0x60, 0x05, 0xF0, 0x1E]);
    for _ in 0..3 {
        assert_eq!(system.cycle(), Ok(false));
    }
    assert_eq!(system.index_register(), 0x15);
    // Fx29 points the index at a glyph of the sprite table.
    let mut system = machine_with(vec![0x60, 0x0A, 0xF0, 0x29]);
    assert_eq!(system.cycle(), Ok(false));
    assert_eq!(system.cycle(), Ok(false));
    assert_eq!(system.index_register(), 0x50 + 10 * 5);
}

#[test]
fn test_unknown_opcode_faults() {
    let mut system = machine_with(vec![0x50, 0x01]);
    assert_eq!(system.cycle(), Err(Fault::UnknownOpcode { opcode: 0x5001, address: 0x200 }));
    assert_eq!(system.program_counter(), 0x200);
    let mut system = machine_with(vec![0x80, 0x18]);
    assert_eq!(system.cycle(), Err(Fault::UnknownOpcode { opcode: 0x8018, address: 0x200 }));
    let mut system = machine_with(vec![0xE0, 0x00]);
    assert_eq!(system.cycle(), Err(Fault::UnknownOpcode { opcode: 0xE000, address: 0x200 }));
    let mut system = machine_with(vec![0xF0, 0x99]);
    assert_eq!(system.cycle(), Err(Fault::UnknownOpcode { opcode: 0xF099, address: 0x200 }));
}

#[test]
fn test_stack_underflow_faults() {
    let mut system = machine_with(vec![0x00, 0xEE]);
    assert_eq!(system.cycle(), Err(Fault::StackUnderflow { opcode: 0x00EE, address: 0x200 }));
    assert_eq!(system.program_counter(), 0x200);
}

// The call stack holds 24 nested calls; the 25th overflows.
#[test]
fn test_stack_overflow_faults() {
    let mut system = machine_with(vec![0x23, 0x00]);
    system.copy_buffer_to_memory(vec![0x23, 0x00], 0x300);
    for _ in 0..24 {
        assert_eq!(system.cycle(), Ok(false));
    }
    assert_eq!(system.cycle(), Err(Fault::StackOverflow { opcode: 0x2300, address: 0x300 }));
}

#[test]
fn test_fetch_out_of_bounds_faults() {
    let mut system = machine_with(vec![0x1F, 0xFF]);
    assert_eq!(system.cycle(), Ok(false));
    assert_eq!(system.program_counter(), 0xFFF);
    assert_eq!(system.cycle(), Err(Fault::OutOfBounds { opcode: 0, address: 0xFFF }));
}

#[test]
fn test_draw_out_of_bounds_faults() {
    let mut system = machine_with(vec![0xAF, 0xFF, 0xD0, 0x02]);
    assert_eq!(system.cycle(), Ok(false));
    assert_eq!(system.cycle(), Err(Fault::OutOfBounds { opcode: 0xD002, address: 0x202 }));
}

#[test]
fn test_block_store_out_of_bounds_faults() {
    let mut system = machine_with(vec![0xAF, 0xFE, 0xF3, 0x55]);
    assert_eq!(system.cycle(), Ok(false));
    assert_eq!(system.cycle(), Err(Fault::OutOfBounds { opcode: 0xF355, address: 0x202 }));
}
