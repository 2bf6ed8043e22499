use chip8::cpu::{Chip8Error, KeyWait, CPU, MAX_ROM_SIZE};
use chip8::window::Window;

const NO_KEYS: [bool; 16] = [false; 16];

fn boot(rom: &[u8]) -> (CPU, Window) {
    let mut cpu = CPU::new();
    cpu.load_rom(rom).unwrap();
    (cpu, Window::new())
}

fn run(cpu: &mut CPU, w: &mut Window, steps: usize) {
    for _ in 0..steps {
        cpu.step(w, &NO_KEYS, 0).unwrap();
    }
}

const FONT_ONE: [u8; 5] = [0x20, 0x60, 0x20, 0x20, 0x70];

#[test]
fn power_on_state() {
    let cpu = CPU::new();
    assert_eq!(cpu.program_counter(), 0x200);
    assert_eq!(cpu.index(), 0);
    assert_eq!(cpu.stack_depth(), 0);
    assert_eq!(cpu.key_wait(), KeyWait::Running);
    assert_eq!(cpu.memory_at(0), 0xF0);
    for k in 0..5 {
        assert_eq!(cpu.memory_at(5 + k), FONT_ONE[k]);
    }
    assert_eq!(cpu.memory_at(79), 0x80);
    assert_eq!(cpu.memory_at(80), 0);
}

#[test]
fn load_rom_copies_bytes_and_keeps_font() {
    let fresh = CPU::new();
    let mut cpu = CPU::new();
    let rom = [1u8, 2, 3, 0xFF];
    assert_eq!(cpu.load_rom(&rom), Ok(()));
    for a in 0..4096 {
        if (0x200..0x204).contains(&a) {
            assert_eq!(cpu.memory_at(a), rom[a - 0x200]);
        } else {
            assert_eq!(cpu.memory_at(a), fresh.memory_at(a));
        }
    }
    assert_eq!(cpu.program_counter(), 0x200);
}

#[test]
fn load_rom_of_largest_size() {
    let mut cpu = CPU::new();
    let rom = vec![0xABu8; MAX_ROM_SIZE];
    assert_eq!(cpu.load_rom(&rom), Ok(()));
    assert_eq!(cpu.memory_at(0x200), 0xAB);
    assert_eq!(cpu.memory_at(4095), 0xAB);
    assert_eq!(cpu.memory_at(0x1FF), 0);
}

#[test]
fn load_rom_too_large_writes_nothing() {
    let mut cpu = CPU::new();
    let rom = vec![0x11u8; MAX_ROM_SIZE + 1];
    assert_eq!(cpu.load_rom(&rom), Err(Chip8Error::RomTooLarge));
    for a in 0x200..4096 {
        assert_eq!(cpu.memory_at(a), 0);
    }
    assert_eq!(Chip8Error::RomTooLarge.message(), "ROM is too big");
}

#[test]
fn load_immediate_overwrites() {
    let (mut cpu, mut w) = boot(&[0x63, 0x10, 0x63, 0x07]);
    run(&mut cpu, &mut w, 1);
    assert_eq!(cpu.register(3), 0x10);
    run(&mut cpu, &mut w, 1);
    assert_eq!(cpu.register(3), 0x07);
    assert_eq!(cpu.program_counter(), 0x204);
}

#[test]
fn add_immediate_wraps_and_keeps_flag() {
    let (mut cpu, mut w) = boot(&[0x6F, 0x55, 0x62, 0xF0, 0x72, 0x20]);
    run(&mut cpu, &mut w, 3);
    assert_eq!(cpu.register(2), 0x10);
    assert_eq!(cpu.register(15), 0x55);
}

fn alu(a: u8, b: u8, n: u8) -> (u8, u8) {
    let (mut cpu, mut w) = boot(&[0x61, a, 0x62, b, 0x81, 0x20 | n]);
    run(&mut cpu, &mut w, 3);
    (cpu.register(1), cpu.register(15))
}

#[test]
fn add_with_carry() {
    assert_eq!(alu(200, 100, 4), (44, 1));
    assert_eq!(alu(1, 2, 4), (3, 0));
    assert_eq!(alu(255, 1, 4), (0, 1));
    assert_eq!(alu(128, 127, 4), (255, 0));
}

#[test]
fn sub_with_borrow() {
    assert_eq!(alu(5, 3, 5), (2, 1));
    assert_eq!(alu(3, 5, 5), (254, 0));
    assert_eq!(alu(7, 7, 5), (0, 1));
}

#[test]
fn reverse_sub() {
    assert_eq!(alu(3, 5, 7), (2, 1));
    assert_eq!(alu(5, 3, 7), (254, 0));
}

#[test]
fn logic_ops() {
    assert_eq!(alu(0b1100, 0b1010, 0).0, 0b1010);
    assert_eq!(alu(0b1100, 0b1010, 1).0, 0b1110);
    assert_eq!(alu(0b1100, 0b1010, 2).0, 0b1000);
    assert_eq!(alu(0b1100, 0b1010, 3).0, 0b0110);
}

#[test]
fn shifts_capture_bit_before_shifting() {
    assert_eq!(alu(0b1000_0011, 0xFF, 6), (0b0100_0001, 1));
    assert_eq!(alu(0b1000_0010, 0x00, 6), (0b0100_0001, 0));
    assert_eq!(alu(0b1000_0011, 0x00, 0xE), (0b0000_0110, 1));
    assert_eq!(alu(0b0100_0011, 0xFF, 0xE), (0b1000_0110, 0));
}

#[test]
fn unknown_alu_opcode() {
    let (mut cpu, mut w) = boot(&[0x81, 0x28]);
    assert_eq!(cpu.step(&mut w, &NO_KEYS, 0), Err(Chip8Error::UnknownOpcode(0x8128)));
    assert_eq!(cpu.program_counter(), 0x200);
}

#[test]
fn unknown_key_and_misc_opcodes() {
    let (mut cpu, mut w) = boot(&[0xE1, 0x00]);
    assert_eq!(cpu.step(&mut w, &NO_KEYS, 0), Err(Chip8Error::UnknownOpcode(0xE100)));
    let (mut cpu, mut w) = boot(&[0xF1, 0xFF]);
    assert_eq!(cpu.step(&mut w, &NO_KEYS, 0), Err(Chip8Error::UnknownOpcode(0xF1FF)));
}

#[test]
fn machine_code_call_is_ignored() {
    let (mut cpu, mut w) = boot(&[0x01, 0x23, 0x60, 0x09]);
    run(&mut cpu, &mut w, 2);
    assert_eq!(cpu.register(0), 9);
    assert_eq!(cpu.program_counter(), 0x204);
}

#[test]
fn clear_opcode_turns_all_pixels_off() {
    let (mut cpu, mut w) = boot(&[0x00, 0xE0]);
    w.draw(&[0xFF; 16], 0, 0);
    run(&mut cpu, &mut w, 1);
    for y in 0..32 {
        for x in 0..64 {
            assert!(!w.pixel(x, y));
        }
    }
}

#[test]
fn sixteen_calls_then_overflow() {
    let (mut cpu, mut w) = boot(&[0x22, 0x00]);
    for depth in 1..=16 {
        run(&mut cpu, &mut w, 1);
        assert_eq!(cpu.stack_depth(), depth);
        assert_eq!(cpu.program_counter(), 0x200);
    }
    assert_eq!(cpu.step(&mut w, &NO_KEYS, 0), Err(Chip8Error::StackOverflow));
    assert_eq!(cpu.stack_depth(), 16);
    assert_eq!(cpu.program_counter(), 0x200);
}

#[test]
fn call_and_return() {
    let (mut cpu, mut w) = boot(&[0x22, 0x04, 0x00, 0x00, 0x00, 0xEE]);
    run(&mut cpu, &mut w, 1);
    assert_eq!(cpu.program_counter(), 0x204);
    run(&mut cpu, &mut w, 1);
    assert_eq!(cpu.program_counter(), 0x202);
    assert_eq!(cpu.stack_depth(), 0);
}

#[test]
fn return_with_empty_stack_underflows() {
    let (mut cpu, mut w) = boot(&[0x00, 0xEE]);
    assert_eq!(cpu.step(&mut w, &NO_KEYS, 0), Err(Chip8Error::StackUnderflow));
    assert_eq!(cpu.program_counter(), 0x200);
}

#[test]
fn jumps() {
    let (mut cpu, mut w) = boot(&[0x13, 0x00]);
    run(&mut cpu, &mut w, 1);
    assert_eq!(cpu.program_counter(), 0x300);
    let (mut cpu, mut w) = boot(&[0x60, 0x22, 0xB3, 0x00]);
    run(&mut cpu, &mut w, 2);
    assert_eq!(cpu.program_counter(), 0x322);
}

#[test]
fn skips() {
    // 3XNN taken, 4XNN not taken, 5XY0 taken, 9XY0 not taken.
    let (mut cpu, mut w) = boot(&[0x61, 0x04, 0x31, 0x04]);
    run(&mut cpu, &mut w, 2);
    assert_eq!(cpu.program_counter(), 0x206);
    let (mut cpu, mut w) = boot(&[0x61, 0x04, 0x41, 0x04]);
    run(&mut cpu, &mut w, 2);
    assert_eq!(cpu.program_counter(), 0x204);
    let (mut cpu, mut w) = boot(&[0x61, 0x04, 0x62, 0x04, 0x51, 0x20]);
    run(&mut cpu, &mut w, 3);
    assert_eq!(cpu.program_counter(), 0x208);
    let (mut cpu, mut w) = boot(&[0x61, 0x04, 0x62, 0x04, 0x91, 0x20]);
    run(&mut cpu, &mut w, 3);
    assert_eq!(cpu.program_counter(), 0x206);
}

#[test]
fn key_skips() {
    let mut keys = [false; 16];
    keys[5] = true;
    let (mut cpu, mut w) = boot(&[0x61, 0x05, 0xE1, 0x9E]);
    cpu.step(&mut w, &keys, 0).unwrap();
    cpu.step(&mut w, &keys, 0).unwrap();
    assert_eq!(cpu.program_counter(), 0x206);
    let (mut cpu, mut w) = boot(&[0x61, 0x05, 0xE1, 0xA1]);
    cpu.step(&mut w, &keys, 0).unwrap();
    cpu.step(&mut w, &keys, 0).unwrap();
    assert_eq!(cpu.program_counter(), 0x204);
    // A register value past the keypad names no key.
    let (mut cpu, mut w) = boot(&[0x61, 0x25, 0xE1, 0xA1]);
    cpu.step(&mut w, &keys, 0).unwrap();
    cpu.step(&mut w, &keys, 0).unwrap();
    assert_eq!(cpu.program_counter(), 0x206);
}

#[test]
fn random_is_masked() {
    let (mut cpu, mut w) = boot(&[0xC4, 0x0F]);
    cpu.step(&mut w, &NO_KEYS, 0xAB).unwrap();
    assert_eq!(cpu.register(4), 0x0B);
}

#[test]
fn random_through_run_loop_is_masked() {
    let (mut cpu, mut w) = boot(&[0xC4, 0x0F]);
    cpu.run_loop(&mut w, &NO_KEYS).unwrap();
    assert!(cpu.register(4) <= 0x0F);
}

#[test]
fn index_instructions() {
    let (mut cpu, mut w) = boot(&[0xAF, 0xFE, 0x63, 0x05, 0xF3, 0x1E]);
    run(&mut cpu, &mut w, 3);
    assert_eq!(cpu.index(), 0x1003);
    let (mut cpu, mut w) = boot(&[0x63, 0x0F, 0xF3, 0x29]);
    run(&mut cpu, &mut w, 2);
    assert_eq!(cpu.index(), 75);
    let (mut cpu, mut w) = boot(&[0x63, 0xFF, 0xF3, 0x29]);
    run(&mut cpu, &mut w, 2);
    assert_eq!(cpu.index(), 1275);
}

#[test]
fn bcd_digits() {
    let (mut cpu, mut w) = boot(&[0x63, 254, 0xA3, 0x00, 0xF3, 0x33]);
    run(&mut cpu, &mut w, 3);
    assert_eq!(cpu.memory_at(0x300), 2);
    assert_eq!(cpu.memory_at(0x301), 5);
    assert_eq!(cpu.memory_at(0x302), 4);
}

#[test]
fn store_and_load_registers() {
    let (mut cpu, mut w) = boot(&[
        0x60, 0x0A, 0x61, 0x0B, 0x62, 0x0C, 0xA3, 0x00, 0xF1, 0x55, 0x60, 0x00, 0x61, 0x00,
        0x62, 0x00, 0xF1, 0x65,
    ]);
    run(&mut cpu, &mut w, 5);
    assert_eq!(cpu.memory_at(0x300), 0x0A);
    assert_eq!(cpu.memory_at(0x301), 0x0B);
    assert_eq!(cpu.memory_at(0x302), 0);
    run(&mut cpu, &mut w, 4);
    assert_eq!(cpu.register(0), 0x0A);
    assert_eq!(cpu.register(1), 0x0B);
    assert_eq!(cpu.register(2), 0);
}

#[test]
fn store_registers_wraps_memory() {
    let (mut cpu, mut w) = boot(&[0x60, 0x77, 0x61, 0x88, 0xAF, 0xFF, 0xF1, 0x55]);
    run(&mut cpu, &mut w, 4);
    assert_eq!(cpu.memory_at(0xFFF), 0x77);
    assert_eq!(cpu.memory_at(0x000), 0x88);
}

#[test]
fn timers_are_set_and_read() {
    let (mut cpu, mut w) = boot(&[0x63, 0x09, 0xF3, 0x15, 0xF3, 0x18, 0xF4, 0x07]);
    run(&mut cpu, &mut w, 4);
    assert_eq!(cpu.delay_timer(), 9);
    assert_eq!(cpu.sound_timer(), 9);
    assert_eq!(cpu.register(4), 9);
}

#[test]
fn tick_timers_stops_at_zero() {
    let (mut cpu, mut w) = boot(&[0x63, 0x01, 0xF3, 0x18]);
    run(&mut cpu, &mut w, 2);
    assert!(!cpu.tick_timers());
    assert_eq!(cpu.sound_timer(), 0);
    assert_eq!(cpu.delay_timer(), 0);
    assert!(!cpu.tick_timers());
    assert_eq!(cpu.sound_timer(), 0);
}

#[test]
fn frame_counts_timers_down_once() {
    // Set both timers to 3, then loop on the jump.
    let (mut cpu, mut w) = boot(&[0x63, 0x03, 0xF3, 0x15, 0xF3, 0x18, 0x12, 0x06]);
    assert_eq!(cpu.run_frame(&mut w, &NO_KEYS), Ok(true));
    assert_eq!(cpu.delay_timer(), 2);
    assert_eq!(cpu.sound_timer(), 2);
    assert_eq!(cpu.run_frame(&mut w, &NO_KEYS), Ok(true));
    assert_eq!(cpu.run_frame(&mut w, &NO_KEYS), Ok(false));
    assert_eq!(cpu.sound_timer(), 0);
    assert_eq!(cpu.run_frame(&mut w, &NO_KEYS), Ok(false));
    assert_eq!(cpu.delay_timer(), 0);
}

#[test]
fn frame_stops_on_error() {
    let (mut cpu, mut w) = boot(&[0x60, 0x01, 0x00, 0xEE]);
    assert_eq!(cpu.run_frame(&mut w, &NO_KEYS), Err(Chip8Error::StackUnderflow));
    assert_eq!(cpu.register(0), 1);
}

#[test]
fn wait_for_key_takes_lowest_pressed() {
    let (mut cpu, mut w) = boot(&[0xF5, 0x0A, 0x66, 0x01]);
    run(&mut cpu, &mut w, 1);
    assert_eq!(cpu.key_wait(), KeyWait::AwaitingKey(5));
    for _ in 0..3 {
        cpu.step(&mut w, &NO_KEYS, 0).unwrap();
        assert_eq!(cpu.program_counter(), 0x202);
        assert_eq!(cpu.key_wait(), KeyWait::AwaitingKey(5));
    }
    let mut keys = [false; 16];
    keys[9] = true;
    keys[3] = true;
    cpu.step(&mut w, &keys, 0).unwrap();
    assert_eq!(cpu.register(5), 3);
    assert_eq!(cpu.key_wait(), KeyWait::Running);
    assert_eq!(cpu.program_counter(), 0x202);
    assert_eq!(cpu.register(6), 0);
    cpu.step(&mut w, &keys, 0).unwrap();
    assert_eq!(cpu.register(6), 1);
}

#[test]
fn wait_survives_a_frame_without_keys() {
    let (mut cpu, mut w) = boot(&[0xF2, 0x0A, 0x61, 0x01]);
    assert_eq!(cpu.run_frame(&mut w, &NO_KEYS), Ok(false));
    assert_eq!(cpu.program_counter(), 0x202);
    assert_eq!(cpu.register(1), 0);
    let mut keys = [false; 16];
    keys[0xE] = true;
    assert_eq!(cpu.run_frame(&mut w, &keys), Ok(false));
    assert_eq!(cpu.register(2), 0xE);
    assert_eq!(cpu.register(1), 1);
}

#[test]
fn end_to_end_add() {
    let (mut cpu, mut w) = boot(&[0x60, 0x05, 0x61, 0x03, 0x80, 0x14]);
    run(&mut cpu, &mut w, 1);
    assert_eq!(cpu.register(0), 0x05);
    run(&mut cpu, &mut w, 1);
    assert_eq!(cpu.register(1), 0x03);
    run(&mut cpu, &mut w, 1);
    assert_eq!(cpu.register(0), 0x08);
    assert_eq!(cpu.register(15), 0x00);
}

#[test]
fn end_to_end_index_and_draw() {
    // A210 points I at 0x210, past this four-byte program, where memory is
    // zero: the five rows drawn at (0, 0) are blank.
    let (mut cpu, mut w) = boot(&[0xA2, 0x10, 0xD0, 0x05]);
    run(&mut cpu, &mut w, 2);
    assert_eq!(cpu.index(), 0x210);
    assert_eq!(cpu.register(15), 0);
    for y in 0..32 {
        for x in 0..64 {
            assert!(!w.pixel(x, y));
        }
    }
}

#[test]
fn end_to_end_draw_font_glyph() {
    // A005 points I at the glyph "1"; D005 draws it at (0, 0).
    let (mut cpu, mut w) = boot(&[0xA0, 0x05, 0xD0, 0x05]);
    run(&mut cpu, &mut w, 2);
    assert_eq!(cpu.register(15), 0);
    for y in 0..32 {
        for x in 0..64 {
            let expected = y < 5 && x < 8 && (FONT_ONE[y] >> (7 - x)) & 1 == 1;
            assert_eq!(w.pixel(x, y), expected);
        }
    }
    // Drawing it again erases it and reports a collision.
    let (mut cpu, mut w) = boot(&[0xA0, 0x05, 0xD0, 0x05, 0xD0, 0x05]);
    run(&mut cpu, &mut w, 3);
    assert_eq!(cpu.register(15), 1);
    for y in 0..32 {
        for x in 0..64 {
            assert!(!w.pixel(x, y));
        }
    }
}

#[test]
fn set_register_then_add() {
    let (mut cpu, mut w) = boot(&[0x8A, 0xB4]);
    cpu.set_register(0xA, 250);
    cpu.set_register(0xB, 10);
    run(&mut cpu, &mut w, 1);
    assert_eq!(cpu.register(0xA), 4);
    assert_eq!(cpu.register(15), 1);
}
