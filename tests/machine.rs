use chip8::cpu::Cpu;
use chip8::display::Display;
use chip8::instruction::Instruction;
use chip8::machine::Chip8;
use chip8::ram::Ram;
use chip8::Chip8Error;

fn machine_with(program: &[u8]) -> Chip8 {
    let mut m = Chip8::new();
    m.load_rom(&program.to_vec()).unwrap();
    m
}

#[test]
fn load_places_bytes_at_program_offset() {
    let program: Vec<u8> = (0..100u32).map(|k| (k * 7 % 256) as u8).collect();
    let mut m = Chip8::new();
    assert_eq!(m.load_rom(&program), Ok(()));
    for (k, b) in program.iter().enumerate() {
        assert_eq!(m.read_memory(0x200 + k as u16), *b);
    }
    assert_eq!(m.read_memory(0x200 + 100), 0);
}

#[test]
fn load_largest_program() {
    let program = vec![0xABu8; 3584];
    let mut m = Chip8::new();
    assert_eq!(m.load_rom(&program), Ok(()));
    assert_eq!(m.read_memory(0x200), 0xAB);
    assert_eq!(m.read_memory(4095), 0xAB);
    assert_eq!(m.read_memory(0x1FF), 0);
}

#[test]
fn load_too_large_program_fails_and_changes_nothing() {
    let mut m = machine_with(&[0x12, 0x34]);
    let program = vec![0x55u8; 3585];
    assert_eq!(m.load_rom(&program), Err(Chip8Error::OutOfBounds));
    assert_eq!(m.read_memory(0x200), 0x12);
    assert_eq!(m.read_memory(0x201), 0x34);
    assert_eq!(m.read_memory(0x202), 0);
    assert_eq!(m.pc(), 0x200);
}

#[test]
fn fresh_memory_holds_glyphs() {
    let ram = Ram::new();
    assert_eq!(ram.read_byte(0), 0xF0);
    assert_eq!(ram.read_byte(1), 0x90);
    assert_eq!(ram.read_byte(5), 0x20);
    assert_eq!(ram.read_byte(79), 0x80);
    assert_eq!(ram.read_byte(80), 0);
}

#[test]
fn ram_write_then_read() {
    let mut ram = Ram::new();
    ram.write_byte(4095, 0x42);
    assert_eq!(ram.read_byte(4095), 0x42);
}

#[test]
fn load_immediate_sets_register() {
    let mut m = machine_with(&[0x6A, 0x5C]);
    assert_eq!(m.run_instruction(), Ok(()));
    assert_eq!(m.register(0xA), 0x5C);
    assert_eq!(m.pc(), 0x202);
}

#[test]
fn add_immediate_wraps() {
    let mut m = machine_with(&[0x63, 250, 0x73, 5, 0x73, 5]);
    for _ in 0..3 {
        m.run_instruction().unwrap();
    }
    assert_eq!(m.register(3), 4);
    assert_eq!(m.register(0xF), 0);
}

#[test]
fn add_registers_sets_carry() {
    let mut m = machine_with(&[0x61, 200, 0x62, 100, 0x81, 0x24]);
    for _ in 0..3 {
        m.run_instruction().unwrap();
    }
    assert_eq!(m.register(1), 44);
    assert_eq!(m.register(0xF), 1);

    let mut m = machine_with(&[0x61, 100, 0x62, 100, 0x81, 0x24]);
    for _ in 0..3 {
        m.run_instruction().unwrap();
    }
    assert_eq!(m.register(1), 200);
    assert_eq!(m.register(0xF), 0);
}

#[test]
fn sub_registers_sets_borrow() {
    let mut m = machine_with(&[0x61, 5, 0x62, 10, 0x81, 0x25]);
    for _ in 0..3 {
        m.run_instruction().unwrap();
    }
    assert_eq!(m.register(1), 251);
    assert_eq!(m.register(0xF), 0);

    let mut m = machine_with(&[0x61, 10, 0x62, 10, 0x81, 0x25]);
    for _ in 0..3 {
        m.run_instruction().unwrap();
    }
    assert_eq!(m.register(1), 0);
    assert_eq!(m.register(0xF), 1);
}

#[test]
fn reverse_subtract_and_shifts() {
    let mut m = machine_with(&[0x61, 10, 0x62, 3, 0x81, 0x27]);
    for _ in 0..3 {
        m.run_instruction().unwrap();
    }
    assert_eq!(m.register(1), 249);
    assert_eq!(m.register(0xF), 0);

    let mut m = machine_with(&[0x62, 0x81, 0x81, 0x26]);
    m.run_instruction().unwrap();
    m.run_instruction().unwrap();
    assert_eq!(m.register(1), 0x40);
    assert_eq!(m.register(0xF), 1);

    let mut m = machine_with(&[0x62, 0x81, 0x81, 0x2E]);
    m.run_instruction().unwrap();
    m.run_instruction().unwrap();
    assert_eq!(m.register(1), 0x02);
    assert_eq!(m.register(0xF), 1);
}

#[test]
fn bitwise_operations() {
    let mut m = machine_with(&[0x61, 0b1100, 0x62, 0b1010, 0x83, 0x10, 0x83, 0x21, 0x84, 0x10, 0x84, 0x22, 0x85, 0x10, 0x85, 0x23]);
    for _ in 0..8 {
        m.run_instruction().unwrap();
    }
    assert_eq!(m.register(3), 0b1110);
    assert_eq!(m.register(4), 0b1000);
    assert_eq!(m.register(5), 0b0110);
}

#[test]
fn clear_gives_blank_grid() {
    let mut m = machine_with(&[0xA0, 0x00, 0xD0, 0x05, 0x00, 0xE0]);
    m.run_instruction().unwrap();
    m.run_instruction().unwrap();
    assert!(m.pixel(0, 0));
    m.run_instruction().unwrap();
    let grid = m.display_grid();
    assert_eq!(grid.len(), 32);
    for row in &grid {
        assert_eq!(row.len(), 64);
        assert!(row.iter().all(|p| !p));
    }
}

#[test]
fn draw_twice_toggles_off_and_collides() {
    // I := glyph 0; draw at (V0, V1) twice.
    let mut m = machine_with(&[0x60, 10, 0x61, 3, 0xA0, 0x00, 0xD0, 0x15, 0xD0, 0x15]);
    for _ in 0..4 {
        m.run_instruction().unwrap();
    }
    assert_eq!(m.register(0xF), 0);
    assert!(m.pixel(10, 3));
    assert!(m.pixel(13, 3));
    assert!(!m.pixel(14, 3));
    assert!(m.pixel(10, 4));
    assert!(!m.pixel(11, 4));
    m.run_instruction().unwrap();
    assert_eq!(m.register(0xF), 1);
    let grid = m.display_grid();
    assert!(grid.iter().all(|row| row.iter().all(|p| !p)));
}

#[test]
fn draw_wraps_around_edges() {
    let mut d = Display::new();
    let collision = d.draw_sprite(62, 31, &vec![0xFF, 0x80]);
    assert!(!collision);
    assert!(d.pixel(62, 31));
    assert!(d.pixel(63, 31));
    assert!(d.pixel(0, 31));
    assert!(d.pixel(5, 31));
    assert!(!d.pixel(6, 31));
    assert!(d.pixel(62, 0));
    assert!(!d.pixel(63, 0));
    d.clear();
    assert!(!d.pixel(62, 31));
}

#[test]
fn draw_past_memory_end_fails() {
    let mut m = machine_with(&[0xAF, 0xFE, 0xD0, 0x03]);
    m.run_instruction().unwrap();
    assert_eq!(m.run_instruction(), Err(Chip8Error::OutOfBounds));
    assert_eq!(m.pc(), 0x202);
}

#[test]
fn jump_sets_pc_exactly() {
    let mut m = machine_with(&[0x13, 0x45]);
    m.run_instruction().unwrap();
    assert_eq!(m.pc(), 0x345);
}

#[test]
fn skip_advances_four() {
    let mut m = machine_with(&[0x61, 7, 0x31, 7]);
    m.run_instruction().unwrap();
    m.run_instruction().unwrap();
    assert_eq!(m.pc(), 0x202 + 4);

    let mut m = machine_with(&[0x61, 7, 0x31, 8]);
    m.run_instruction().unwrap();
    m.run_instruction().unwrap();
    assert_eq!(m.pc(), 0x202 + 2);
}

#[test]
fn other_skips() {
    let mut m = machine_with(&[0x61, 7, 0x41, 8]);
    m.run_instruction().unwrap();
    m.run_instruction().unwrap();
    assert_eq!(m.pc(), 0x206);

    let mut m = machine_with(&[0x61, 7, 0x62, 7, 0x51, 0x20]);
    for _ in 0..3 {
        m.run_instruction().unwrap();
    }
    assert_eq!(m.pc(), 0x208);

    let mut m = machine_with(&[0x61, 7, 0x62, 7, 0x91, 0x20]);
    for _ in 0..3 {
        m.run_instruction().unwrap();
    }
    assert_eq!(m.pc(), 0x206);
}

#[test]
fn invalid_opcode_ffff() {
    assert_eq!(Instruction::decode(0xFF, 0xFF), Err(Chip8Error::InvalidOpcode));
    let mut m = machine_with(&[0xFF, 0xFF]);
    assert_eq!(m.run_instruction(), Err(Chip8Error::InvalidOpcode));
    assert_eq!(m.pc(), 0x200);
}

#[test]
fn other_invalid_opcodes() {
    assert_eq!(Instruction::decode(0x51, 0x21), Err(Chip8Error::InvalidOpcode));
    assert_eq!(Instruction::decode(0x81, 0x28), Err(Chip8Error::InvalidOpcode));
    assert_eq!(Instruction::decode(0x91, 0x2F), Err(Chip8Error::InvalidOpcode));
    assert_eq!(Instruction::decode(0xE1, 0x00), Err(Chip8Error::InvalidOpcode));
}

#[test]
fn decode_examples() {
    assert_eq!(Instruction::decode(0x00, 0xE0), Ok(Instruction::Clear));
    assert_eq!(Instruction::decode(0x00, 0xEE), Ok(Instruction::Return));
    assert_eq!(Instruction::decode(0x01, 0x23), Ok(Instruction::Sys(0x123)));
    assert_eq!(Instruction::decode(0xD1, 0x2F), Ok(Instruction::Draw(1, 2, 15)));
    assert_eq!(Instruction::decode(0x8A, 0xBE), Ok(Instruction::ShiftLeft(0xA, 0xB)));
    assert_eq!(Instruction::decode(0xF3, 0x65), Ok(Instruction::LoadRegs(3)));
    assert_eq!(Instruction::decode(0xBF, 0xFF), Ok(Instruction::JumpOffset(0xFFF)));
}

#[test]
fn sys_is_ignored() {
    let mut m = machine_with(&[0x01, 0x23]);
    m.run_instruction().unwrap();
    assert_eq!(m.pc(), 0x202);
}

#[test]
fn wait_for_key_blocks_until_delivery() {
    let mut m = machine_with(&[0xF5, 0x0A, 0x60, 0x01]);
    m.run_instruction().unwrap();
    assert!(m.is_waiting());
    assert_eq!(m.pc(), 0x200);
    for _ in 0..5 {
        m.set_key(3, true);
        m.run_instruction().unwrap();
        assert_eq!(m.pc(), 0x200);
    }
    assert!(m.deliver_keypress(0xB));
    assert!(!m.is_waiting());
    assert_eq!(m.pc(), 0x202);
    assert_eq!(m.register(5), 0xB);
    m.run_instruction().unwrap();
    assert_eq!(m.register(0), 1);
    assert!(!m.deliver_keypress(2));
}

#[test]
fn call_and_return() {
    // 0x200: call 0x206; 0x202: V0 := 9; 0x204: jump 0x204; 0x206: return
    let mut m = machine_with(&[0x22, 0x06, 0x60, 0x09, 0x12, 0x04, 0x00, 0xEE]);
    m.run_instruction().unwrap();
    assert_eq!(m.pc(), 0x206);
    assert_eq!(m.stack_depth(), 1);
    m.run_instruction().unwrap();
    assert_eq!(m.pc(), 0x202);
    assert_eq!(m.stack_depth(), 0);
    m.run_instruction().unwrap();
    assert_eq!(m.register(0), 9);
}

#[test]
fn return_on_empty_stack_underflows() {
    let mut m = machine_with(&[0x00, 0xEE]);
    assert_eq!(m.run_instruction(), Err(Chip8Error::StackUnderflow));
    assert_eq!(m.pc(), 0x200);
}

#[test]
fn deep_calls_overflow() {
    let mut m = machine_with(&[0x22, 0x00]);
    for k in 0..16 {
        assert_eq!(m.run_instruction(), Ok(()));
        assert_eq!(m.stack_depth(), k + 1);
    }
    assert_eq!(m.run_instruction(), Err(Chip8Error::StackOverflow));
    assert_eq!(m.stack_depth(), 16);
}

#[test]
fn fetch_past_memory_end_fails() {
    let mut m = machine_with(&[0x1F, 0xFF]);
    m.run_instruction().unwrap();
    assert_eq!(m.pc(), 0xFFF);
    assert_eq!(m.run_instruction(), Err(Chip8Error::OutOfBounds));
}

#[test]
fn index_operations() {
    let mut m = machine_with(&[0xA1, 0x23, 0x60, 0x07, 0xF0, 0x1E, 0x61, 0x0F, 0xF1, 0x29]);
    m.run_instruction().unwrap();
    assert_eq!(m.index(), 0x123);
    m.run_instruction().unwrap();
    m.run_instruction().unwrap();
    assert_eq!(m.index(), 0x12A);
    m.run_instruction().unwrap();
    m.run_instruction().unwrap();
    assert_eq!(m.index(), 75);
}

#[test]
fn add_index_wraps_in_twelve_bits() {
    let mut m = machine_with(&[0xAF, 0xFF, 0x60, 0x02, 0xF0, 0x1E]);
    for _ in 0..3 {
        m.run_instruction().unwrap();
    }
    assert_eq!(m.index(), 0x001);
    assert_eq!(m.register(0xF), 0);
}

#[test]
fn jump_with_offset() {
    let mut m = machine_with(&[0x60, 0x10, 0xB3, 0x00]);
    m.run_instruction().unwrap();
    m.run_instruction().unwrap();
    assert_eq!(m.pc(), 0x310);
}

#[test]
fn random_is_masked() {
    let mut m = machine_with(&[0xC4, 0x00, 0xC5, 0x0F]);
    m.run_instruction().unwrap();
    assert_eq!(m.register(4), 0);
    m.run_instruction().unwrap();
    assert!(m.register(5) <= 0x0F);
}

#[test]
fn random_depends_on_seed_deterministically() {
    let mut a = Chip8::with_seed(1);
    let mut b = Chip8::with_seed(1);
    a.load_rom(&vec![0xC0, 0xFF]).unwrap();
    b.load_rom(&vec![0xC0, 0xFF]).unwrap();
    a.run_instruction().unwrap();
    b.run_instruction().unwrap();
    assert_eq!(a.register(0), b.register(0));
    // next state of 1 is 1103527590 = 0x41C6_7EA6; bits 16..24 are 0xC6
    assert_eq!(a.register(0), 0xC6);
}

#[test]
fn bcd_store() {
    let mut m = machine_with(&[0x60, 254, 0xA3, 0x00, 0xF0, 0x33]);
    for _ in 0..3 {
        m.run_instruction().unwrap();
    }
    assert_eq!(m.read_memory(0x300), 2);
    assert_eq!(m.read_memory(0x301), 5);
    assert_eq!(m.read_memory(0x302), 4);
    assert_eq!(m.index(), 0x300);
}

#[test]
fn bcd_past_memory_end_fails() {
    let mut m = machine_with(&[0xAF, 0xFE, 0xF0, 0x33]);
    m.run_instruction().unwrap();
    assert_eq!(m.run_instruction(), Err(Chip8Error::OutOfBounds));
    assert_eq!(m.read_memory(0xFFE), 0);
}

#[test]
fn store_and_load_registers() {
    let mut m = machine_with(&[
        0x60, 1, 0x61, 2, 0x62, 3, 0x63, 4, 0xA4, 0x00, 0xF2, 0x55, 0x60, 0, 0x61, 0, 0x62, 0, 0xF1, 0x65,
    ]);
    for _ in 0..6 {
        m.run_instruction().unwrap();
    }
    assert_eq!(m.read_memory(0x400), 1);
    assert_eq!(m.read_memory(0x401), 2);
    assert_eq!(m.read_memory(0x402), 3);
    assert_eq!(m.read_memory(0x403), 0);
    assert_eq!(m.index(), 0x400);
    for _ in 0..4 {
        m.run_instruction().unwrap();
    }
    assert_eq!(m.register(0), 1);
    assert_eq!(m.register(1), 2);
    assert_eq!(m.register(2), 0);
    assert_eq!(m.register(3), 4);
}

#[test]
fn store_registers_past_end_fails() {
    let mut m = machine_with(&[0xAF, 0xFE, 0xF2, 0x55]);
    m.run_instruction().unwrap();
    assert_eq!(m.run_instruction(), Err(Chip8Error::OutOfBounds));
}

#[test]
fn timers() {
    let mut m = machine_with(&[0x60, 2, 0xF0, 0x15, 0xF0, 0x18, 0xF1, 0x07]);
    for _ in 0..3 {
        m.run_instruction().unwrap();
    }
    assert_eq!(m.delay_timer(), 2);
    assert_eq!(m.sound_timer(), 2);
    m.tick_timers();
    m.run_instruction().unwrap();
    assert_eq!(m.register(1), 1);
    m.tick_timers();
    m.tick_timers();
    assert_eq!(m.delay_timer(), 0);
    assert_eq!(m.sound_timer(), 0);
}

#[test]
fn key_skips() {
    let mut m = machine_with(&[0x60, 0x04, 0xE0, 0x9E]);
    m.set_key(4, true);
    assert!(m.is_key_down(4));
    m.run_instruction().unwrap();
    m.run_instruction().unwrap();
    assert_eq!(m.pc(), 0x206);

    let mut m = machine_with(&[0x60, 0x04, 0xE0, 0xA1]);
    m.run_instruction().unwrap();
    m.run_instruction().unwrap();
    assert_eq!(m.pc(), 0x206);

    let mut m = machine_with(&[0x60, 0x14, 0xE0, 0x9E]);
    m.run_instruction().unwrap();
    m.run_instruction().unwrap();
    assert_eq!(m.pc(), 0x204);
}

#[test]
fn cpu_runs_against_parts() {
    let mut cpu = Cpu::new();
    let mut ram = Ram::new();
    let mut display = Display::new();
    ram.load_program(&vec![0xC2, 0xF0]).unwrap();
    let keys = vec![false; 16];
    assert_eq!(cpu.run_instruction(&mut ram, &mut display, &keys, 0xAB), Ok(()));
    assert_eq!(cpu.register(2), 0xA0);
    assert_eq!(cpu.pc(), 0x202);
}
