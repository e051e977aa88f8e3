use chip8::{Chip8, Chip8Error};

fn exec(c: &mut Chip8, words: &[(u8, u8)]) {
    for &(b1, b2) in words {
        assert_eq!(c.execute_with_random(b1, b2, 0), Ok(()));
    }
}

fn loaded(rom: &[u8]) -> Chip8 {
    let mut c = Chip8::new();
    assert_eq!(c.load_instructions(rom), Ok(()));
    c
}

#[test]
fn new_machine_is_zeroed() {
    let c = Chip8::new();
    for i in 0..16 {
        assert_eq!(c.register(i), 0);
    }
    assert_eq!(c.program_counter(), 0);
    assert_eq!(c.address_register(), 0);
    assert_eq!(c.stack_depth(), 0);
    assert_eq!(c.delay_timer(), 0);
    assert_eq!(c.memory(0), 0);
    assert_eq!(c.memory(4095), 0);
    assert!(!c.pixel(0, 0));
    assert!(!c.pixel(30, 62));
}

#[test]
fn add_immediate_wraps_and_keeps_flag() {
    let mut c = Chip8::new();
    exec(&mut c, &[(0x60, 0xFA), (0x6F, 0x07), (0x70, 0x10)]);
    assert_eq!(c.register(0), 0x0A);
    assert_eq!(c.register(15), 7);
    assert_eq!(c.program_counter(), 6);
    exec(&mut c, &[(0x71, 0x05), (0x71, 0x06)]);
    assert_eq!(c.register(1), 11);
}

#[test]
fn add_registers_sets_carry() {
    let mut c = Chip8::new();
    exec(&mut c, &[(0x60, 0xFF), (0x61, 0x02), (0x80, 0x14)]);
    assert_eq!(c.register(0), 1);
    assert_eq!(c.register(15), 1);
    exec(&mut c, &[(0x60, 0x01), (0x80, 0x14)]);
    assert_eq!(c.register(0), 3);
    assert_eq!(c.register(15), 0);
    exec(&mut c, &[(0x60, 0x80), (0x61, 0x80), (0x80, 0x14)]);
    assert_eq!(c.register(0), 0);
    assert_eq!(c.register(15), 1);
}

#[test]
fn subtract_registers_sets_borrow_flag() {
    let mut c = Chip8::new();
    exec(&mut c, &[(0x60, 0x05), (0x61, 0x03), (0x80, 0x15)]);
    assert_eq!(c.register(0), 2);
    assert_eq!(c.register(15), 1);
    exec(&mut c, &[(0x60, 0x03), (0x61, 0x05), (0x80, 0x15)]);
    assert_eq!(c.register(0), 0xFE);
    assert_eq!(c.register(15), 0);
    exec(&mut c, &[(0x60, 0x07), (0x61, 0x07), (0x80, 0x15)]);
    assert_eq!(c.register(0), 0);
    assert_eq!(c.register(15), 0);
}

#[test]
fn shifts_capture_the_outgoing_bit() {
    let mut c = Chip8::new();
    exec(&mut c, &[(0x62, 0x81), (0x82, 0x06)]);
    assert_eq!(c.register(2), 0x40);
    assert_eq!(c.register(15), 1);
    exec(&mut c, &[(0x62, 0x81), (0x82, 0x0E)]);
    assert_eq!(c.register(2), 0x02);
    assert_eq!(c.register(15), 1);
    exec(&mut c, &[(0x62, 0x40), (0x82, 0x0E)]);
    assert_eq!(c.register(2), 0x80);
    assert_eq!(c.register(15), 0);
    exec(&mut c, &[(0x62, 0x02), (0x82, 0x06)]);
    assert_eq!(c.register(2), 0x01);
    assert_eq!(c.register(15), 0);
}

#[test]
fn bitwise_and_move() {
    let mut c = Chip8::new();
    exec(&mut c, &[(0x60, 0b1100), (0x61, 0b1010), (0x82, 0x00), (0x82, 0x11)]);
    assert_eq!(c.register(2), 0b1110);
    exec(&mut c, &[(0x83, 0x00), (0x83, 0x12)]);
    assert_eq!(c.register(3), 0b1000);
    exec(&mut c, &[(0x84, 0x00), (0x84, 0x13)]);
    assert_eq!(c.register(4), 0b0110);
}

#[test]
fn skips_advance_by_four() {
    let mut c = Chip8::new();
    exec(&mut c, &[(0x60, 0x05)]);
    assert_eq!(c.program_counter(), 2);
    exec(&mut c, &[(0x30, 0x05)]);
    assert_eq!(c.program_counter(), 6);
    exec(&mut c, &[(0x30, 0x06)]);
    assert_eq!(c.program_counter(), 8);
    exec(&mut c, &[(0x40, 0x06)]);
    assert_eq!(c.program_counter(), 12);
    exec(&mut c, &[(0x40, 0x05)]);
    assert_eq!(c.program_counter(), 14);
    exec(&mut c, &[(0x61, 0x05), (0x50, 0x10)]);
    assert_eq!(c.program_counter(), 20);
    exec(&mut c, &[(0x90, 0x10)]);
    assert_eq!(c.program_counter(), 22);
    exec(&mut c, &[(0x61, 0x04), (0x90, 0x10)]);
    assert_eq!(c.program_counter(), 28);
}

#[test]
fn jump_and_set_address() {
    let mut c = Chip8::new();
    exec(&mut c, &[(0x1A, 0xBC)]);
    assert_eq!(c.program_counter(), 0xABC);
    exec(&mut c, &[(0xA1, 0x23)]);
    assert_eq!(c.address_register(), 0x123);
    exec(&mut c, &[(0x63, 0x10), (0xF3, 0x1E)]);
    assert_eq!(c.address_register(), 0x133);
}

#[test]
fn call_then_return_lands_after_call() {
    let mut c = loaded(&[0x22, 0x04, 0x00, 0x00, 0x00, 0xEE]);
    assert_eq!(c.program_counter(), 0x200);
    assert_eq!(c.step_with_random(0), Ok(()));
    assert_eq!(c.program_counter(), 0x204);
    assert_eq!(c.stack_depth(), 1);
    assert_eq!(c.step_with_random(0), Ok(()));
    assert_eq!(c.program_counter(), 0x202);
    assert_eq!(c.stack_depth(), 0);
}

#[test]
fn calls_beyond_capacity_overflow() {
    let mut c = loaded(&[0x22, 0x00]);
    for _ in 0..16 {
        assert_eq!(c.step(), Ok(()));
    }
    assert_eq!(c.stack_depth(), 16);
    assert_eq!(c.step(), Err(Chip8Error::StackOverflow));
    assert_eq!(c.stack_depth(), 16);
    assert_eq!(c.program_counter(), 0x200);
}

#[test]
fn return_on_empty_stack_underflows() {
    let mut c = Chip8::new();
    assert_eq!(c.execute_with_random(0x00, 0xEE, 0), Err(Chip8Error::StackUnderflow));
    assert_eq!(c.program_counter(), 0);
    assert_eq!(c.stack_depth(), 0);
}

#[test]
fn unknown_opcode_is_an_error() {
    let mut c = Chip8::new();
    assert_eq!(
        c.execute_with_random(0x00, 0x01, 0),
        Err(Chip8Error::UnknownOpcode { n1: 0, n2: 0, n3: 0, n4: 1 })
    );
    assert_eq!(c.program_counter(), 0);
    assert_eq!(
        c.execute_instruction(0xE1, 0x9E),
        Err(Chip8Error::UnknownOpcode { n1: 0xE, n2: 1, n3: 9, n4: 0xE })
    );
}

#[test]
fn rom_too_large_is_refused() {
    let mut c = Chip8::new();
    let big = vec![1u8; 4096 - 0x200 + 1];
    assert_eq!(c.load_instructions(&big), Err(Chip8Error::RomTooLarge));
    assert_eq!(c.program_counter(), 0);
    assert_eq!(c.memory(0x200), 0);
    let fits = vec![7u8; 4096 - 0x200];
    assert_eq!(c.load_instructions(&fits), Ok(()));
    assert_eq!(c.memory(0x200), 7);
    assert_eq!(c.memory(4095), 7);
    assert_eq!(c.memory(0x1FF), 0);
}

#[test]
fn load_copies_every_byte() {
    let c = loaded(&[0xA1, 0xB2, 0xC3]);
    assert_eq!(c.memory(0x200), 0xA1);
    assert_eq!(c.memory(0x201), 0xB2);
    assert_eq!(c.memory(0x202), 0xC3);
    assert_eq!(c.memory(0x203), 0);
    assert_eq!(c.program_counter(), 0x200);
}

#[test]
fn clear_screen_twice_is_one_clear() {
    let mut c = loaded(&[0xA2, 0x06, 0xD0, 0x01, 0x00, 0xE0, 0xFF]);
    for _ in 0..2 {
        assert_eq!(c.step_with_random(0), Ok(()));
    }
    assert!(c.pixel(0, 0));
    assert_eq!(c.step_with_random(0), Ok(()));
    assert!(!c.pixel(0, 0));
    exec(&mut c, &[(0x00, 0xE0)]);
    for row in 0..31 {
        for col in 0..63 {
            assert!(!c.pixel(row, col));
        }
    }
}

#[test]
fn draw_twice_restores_and_collides() {
    let mut c = loaded(&[0xA2, 0x06, 0xD0, 0x12, 0xD0, 0x12, 0xF0, 0x81]);
    assert_eq!(c.step_with_random(0), Ok(()));
    assert_eq!(c.step_with_random(0), Ok(()));
    assert_eq!(c.register(15), 0);
    for col in 0..4 {
        assert!(c.pixel(0, col));
    }
    assert!(!c.pixel(0, 4));
    assert!(c.pixel(1, 0));
    assert!(c.pixel(1, 7));
    assert!(!c.pixel(1, 1));
    assert_eq!(c.step_with_random(0), Ok(()));
    assert_eq!(c.register(15), 1);
    for row in 0..31 {
        for col in 0..63 {
            assert!(!c.pixel(row, col));
        }
    }
}

#[test]
fn draw_wraps_at_the_edges() {
    let mut c = loaded(&[0xFF, 0x80]);
    exec(&mut c, &[(0xA2, 0x00), (0x60, 60), (0x61, 30), (0xD0, 0x12)]);
    for col in [60, 61, 62, 0, 1, 2, 3, 4] {
        assert!(c.pixel(30, col));
    }
    assert!(!c.pixel(30, 5));
    assert!(c.pixel(0, 60));
    assert!(!c.pixel(0, 61));
    assert_eq!(c.register(15), 0);
}

#[test]
fn draw_position_wraps_modulo_dimensions() {
    let mut c = loaded(&[0x80]);
    exec(&mut c, &[(0xA2, 0x00), (0x60, 63 + 2), (0x61, 31 + 3), (0xD0, 0x11)]);
    assert!(c.pixel(3, 2));
}

#[test]
fn draw_past_memory_end_is_refused() {
    let mut c = Chip8::new();
    exec(&mut c, &[(0xAF, 0xFF)]);
    assert_eq!(c.execute_with_random(0xD0, 0x02, 0), Err(Chip8Error::AddressOutOfRange));
    assert_eq!(c.program_counter(), 2);
    assert_eq!(c.execute_with_random(0xD0, 0x01, 0), Ok(()));
}

#[test]
fn bcd_stores_three_digits() {
    let mut c = Chip8::new();
    exec(&mut c, &[(0x65, 254), (0xA3, 0x00), (0xF5, 0x33)]);
    assert_eq!(c.memory(0x300), 2);
    assert_eq!(c.memory(0x301), 5);
    assert_eq!(c.memory(0x302), 4);
    exec(&mut c, &[(0x65, 7), (0xF5, 0x33)]);
    assert_eq!(c.memory(0x300), 0);
    assert_eq!(c.memory(0x301), 0);
    assert_eq!(c.memory(0x302), 7);
    exec(&mut c, &[(0xAF, 0xFE)]);
    assert_eq!(c.execute_with_random(0xF5, 0x33, 0), Err(Chip8Error::AddressOutOfRange));
}

#[test]
fn store_and_load_registers() {
    let mut c = Chip8::new();
    exec(&mut c, &[(0x60, 1), (0x61, 2), (0x62, 3), (0x63, 4), (0xA4, 0x00), (0xF2, 0x55)]);
    assert_eq!(c.memory(0x400), 1);
    assert_eq!(c.memory(0x401), 2);
    assert_eq!(c.memory(0x402), 3);
    assert_eq!(c.memory(0x403), 0);
    exec(&mut c, &[(0x60, 9), (0x61, 9), (0x62, 9), (0x63, 9), (0xF1, 0x65)]);
    assert_eq!(c.register(0), 1);
    assert_eq!(c.register(1), 2);
    assert_eq!(c.register(2), 9);
    assert_eq!(c.register(3), 9);
    exec(&mut c, &[(0xAF, 0xFF)]);
    assert_eq!(c.execute_with_random(0xF1, 0x55, 0), Err(Chip8Error::AddressOutOfRange));
    assert_eq!(c.execute_with_random(0xF1, 0x65, 0), Err(Chip8Error::AddressOutOfRange));
    assert_eq!(c.execute_with_random(0xF0, 0x55, 0), Ok(()));
    assert_eq!(c.memory(0xFFF), 1);
}

#[test]
fn delay_timer_takes_register() {
    let mut c = Chip8::new();
    exec(&mut c, &[(0x64, 42), (0xF4, 0x15)]);
    assert_eq!(c.delay_timer(), 42);
}

#[test]
fn random_is_masked() {
    let mut c = Chip8::new();
    assert_eq!(c.execute_with_random(0xC0, 0x0F, 0xAB), Ok(()));
    assert_eq!(c.register(0), 0x0B);
    assert_eq!(c.execute_instruction(0xC1, 0x0F), Ok(()));
    assert_eq!(c.register(1) & 0xF0, 0);
    exec(&mut c, &[(0x62, 0x55)]);
    assert_eq!(c.execute_instruction(0xC2, 0x00), Ok(()));
    assert_eq!(c.register(2), 0);
}

#[test]
fn fetch_at_memory_end_is_refused() {
    let mut c = Chip8::new();
    exec(&mut c, &[(0x1F, 0xFF)]);
    assert_eq!(c.step(), Err(Chip8Error::AddressOutOfRange));
    assert_eq!(c.program_counter(), 0xFFF);
}

#[test]
fn state_text_lists_registers_in_hex() {
    let mut c = Chip8::new();
    exec(&mut c, &[(0x60, 0x1A), (0x6F, 0xFF)]);
    assert_eq!(
        c.state_to_string(),
        "Regs: [1a, 0, 0, 0, 0, 0, 0, 0, 0, 0, 0, 0, 0, 0, 0, ff]"
    );
}
