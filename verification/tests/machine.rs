use chip8::Chip8;
use chip8::VmError;

#[test]
fn init_builds_the_documented_state() {
    let c = Chip8::init();
    assert_eq!(c.pc, 0x200);
    assert_eq!(c.index, 0);
    assert_eq!(c.stack_pointer, 0);
    assert_eq!(c.delay_timer, 0);
    assert_eq!(c.sound_timer, 0);
    for x in 0..16usize {
        assert_eq!(c.register[x], 0);
        assert_eq!(c.keypad[x], 0);
    }
    for p in 0..2048usize {
        assert_eq!(c.video_memory[p], 0);
    }
    // the glyph table sits at 0x50..0xA0, zero elsewhere
    assert_eq!(c.memory[0x50], 0xF0);
    assert_eq!(c.memory[0x51], 0x90);
    assert_eq!(c.memory[0x9F], 0x80);
    for a in 0..0x50usize {
        assert_eq!(c.memory[a], 0);
    }
    for a in 0xA0..4096usize {
        assert_eq!(c.memory[a], 0);
    }
}

#[test]
fn load_rom_copies_the_image() {
    let mut c = Chip8::init();
    let rom = vec![0x60, 0x05, 0x61, 0x03];
    assert_eq!(c.load_rom(&rom), Ok(()));
    assert_eq!(c.memory[0x200], 0x60);
    assert_eq!(c.memory[0x201], 0x05);
    assert_eq!(c.memory[0x202], 0x61);
    assert_eq!(c.memory[0x203], 0x03);
    assert_eq!(c.memory[0x204], 0);
}

#[test]
fn load_rom_rejects_an_oversized_image() {
    let mut c = Chip8::init();
    let rom = vec![0xAB; 3585];
    assert_eq!(c.load_rom(&rom), Err(VmError::ProgramTooLarge));
    assert_eq!(c.memory[0x200], 0);
    let exact = vec![0xAB; 3584];
    assert_eq!(c.load_rom(&exact), Ok(()));
    assert_eq!(c.memory[0xFFF], 0xAB);
}

#[test]
fn set_key_writes_one_slot() {
    let mut c = Chip8::init();
    c.set_key(7, true);
    assert_eq!(c.keypad[7], 1);
    assert_eq!(c.keypad[6], 0);
    c.set_key(7, false);
    assert_eq!(c.keypad[7], 0);
}

#[test]
fn program_runs_to_the_expected_registers() {
    let mut c = Chip8::init();
    let rom = vec![0x60, 0x05, 0x61, 0x03, 0x80, 0x14];
    c.load_rom(&rom).unwrap();
    c.cycle().unwrap();
    c.cycle().unwrap();
    c.cycle().unwrap();
    assert_eq!(c.register[0], 8);
    assert_eq!(c.register[0xF], 0);
    assert_eq!(c.pc, 0x206);
}

#[test]
fn call_then_return_lands_after_the_call() {
    let mut c = Chip8::init();
    c.memory[0x200] = 0x23;
    c.memory[0x201] = 0x00;
    c.memory[0x300] = 0x00;
    c.memory[0x301] = 0xEE;
    c.cycle().unwrap();
    assert_eq!(c.pc, 0x300);
    c.cycle().unwrap();
    assert_eq!(c.pc, 0x202);
    assert_eq!(c.stack_pointer, 0);
}

#[test]
fn timers_count_down_to_zero_and_stay() {
    let mut c = Chip8::init();
    c.delay_timer = 1;
    c.sound_timer = 2;
    c.cycle().unwrap();
    assert_eq!(c.delay_timer, 0);
    assert_eq!(c.sound_timer, 1);
    c.cycle().unwrap();
    assert_eq!(c.delay_timer, 0);
    assert_eq!(c.sound_timer, 0);
    c.cycle().unwrap();
    assert_eq!(c.delay_timer, 0);
    assert_eq!(c.sound_timer, 0);
}

#[test]
fn unknown_opcode_is_a_two_byte_no_op() {
    let mut c = Chip8::init();
    c.memory[0x200] = 0x01;
    c.memory[0x201] = 0x23;
    c.cycle().unwrap();
    assert_eq!(c.pc, 0x202);
    for x in 0..16usize {
        assert_eq!(c.register[x], 0);
    }
}

#[test]
fn fetch_past_the_end_faults() {
    let mut c = Chip8::init();
    c.pc = 4095;
    assert_eq!(c.cycle(), Err(VmError::MemoryOutOfBounds));
    assert_eq!(c.pc, 4095);
}

#[test]
fn call_with_a_full_stack_faults() {
    let mut c = Chip8::init();
    c.memory[0x200] = 0x23;
    c.memory[0x201] = 0x00;
    c.stack_pointer = 16;
    assert_eq!(c.cycle(), Err(VmError::StackOverflow));
    assert_eq!(c.pc, 0x200);
}

#[test]
fn return_with_an_empty_stack_faults() {
    let mut c = Chip8::init();
    c.memory[0x200] = 0x00;
    c.memory[0x201] = 0xEE;
    assert_eq!(c.cycle(), Err(VmError::StackUnderflow));
    assert_eq!(c.pc, 0x200);
}

#[test]
fn sprite_read_past_the_end_faults() {
    let mut c = Chip8::init();
    c.memory[0x200] = 0xD0;
    c.memory[0x201] = 0x12;
    c.index = 4095;
    assert_eq!(c.cycle(), Err(VmError::MemoryOutOfBounds));
}

#[test]
fn register_dump_past_the_end_faults() {
    let mut c = Chip8::init();
    c.memory[0x200] = 0xF5;
    c.memory[0x201] = 0x55;
    c.index = 4094;
    assert_eq!(c.cycle(), Err(VmError::MemoryOutOfBounds));
    c.memory[0x202] = 0xF5;
    c.memory[0x203] = 0x65;
    c.index = 4094;
    c.pc = 0x202;
    assert_eq!(c.cycle(), Err(VmError::MemoryOutOfBounds));
    c.memory[0x204] = 0xF2;
    c.memory[0x205] = 0x33;
    c.index = 4094;
    c.pc = 0x204;
    assert_eq!(c.cycle(), Err(VmError::MemoryOutOfBounds));
}

#[test]
fn keypad_test_with_a_wild_register_faults() {
    let mut c = Chip8::init();
    c.memory[0x200] = 0xE1;
    c.memory[0x201] = 0x9E;
    c.register[1] = 16;
    assert_eq!(c.cycle(), Err(VmError::KeyOutOfRange));
}

#[test]
fn waiting_for_a_key_busy_waits_through_cycle() {
    let mut c = Chip8::init();
    c.memory[0x200] = 0xF2;
    c.memory[0x201] = 0x0A;
    c.cycle().unwrap();
    assert_eq!(c.pc, 0x200);
    c.cycle().unwrap();
    assert_eq!(c.pc, 0x200);
    c.set_key(0xB, true);
    c.cycle().unwrap();
    assert_eq!(c.pc, 0x202);
    assert_eq!(c.register[2], 0xB);
}
