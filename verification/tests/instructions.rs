use chip8::Chip8;

fn fresh() -> Chip8 {
    Chip8::init()
}

#[test]
fn set_register_leaves_others_alone() {
    let mut c = fresh();
    for x in 0..16u16 {
        c.register[x as usize] = 0x11;
    }
    c.current_op = 0x6A42;
    c.OP_6xkk();
    assert_eq!(c.register[0xA], 0x42);
    for x in 0..16usize {
        if x != 0xA {
            assert_eq!(c.register[x], 0x11);
        }
    }
}

#[test]
fn clear_display_zeroes_all_pixels() {
    let mut c = fresh();
    c.video_memory[0] = 1;
    c.video_memory[1000] = 1;
    c.video_memory[2047] = 1;
    c.current_op = 0x00E0;
    c.OP_00E0();
    for p in 0..2048usize {
        assert_eq!(c.video_memory[p], 0);
    }
}

#[test]
fn store_then_load_restores_registers() {
    let mut c = fresh();
    for x in 0..5usize {
        c.register[x] = (10 * x + 1) as u8;
    }
    c.index = 0x300;
    c.current_op = 0xF555;
    c.OP_Fx55();
    for x in 0..5usize {
        assert_eq!(c.memory[0x300 + x], (10 * x + 1) as u8);
    }
    for x in 0..5usize {
        c.register[x] = 0;
    }
    c.current_op = 0xF565;
    c.OP_Fx56();
    for x in 0..5usize {
        assert_eq!(c.register[x], (10 * x + 1) as u8);
    }
    // the dump stops one short of Vx itself
    assert_eq!(c.memory[0x305], 0);
}

#[test]
fn draw_twice_clears_pixels_and_reports_collision() {
    let mut c = fresh();
    c.memory[0x400] = 0b1010_0001;
    c.memory[0x401] = 0b1111_0000;
    c.index = 0x400;
    c.register[0] = 3;
    c.register[1] = 7;
    c.current_op = 0xD012;
    c.OP_Dxyn();
    assert_eq!(c.register[0xF], 0);
    assert_eq!(c.video_memory[7 * 64 + 3], 1);
    assert_eq!(c.video_memory[7 * 64 + 4], 0);
    assert_eq!(c.video_memory[7 * 64 + 5], 1);
    assert_eq!(c.video_memory[7 * 64 + 10], 1);
    assert_eq!(c.video_memory[8 * 64 + 3], 1);
    assert_eq!(c.video_memory[8 * 64 + 6], 1);
    assert_eq!(c.video_memory[8 * 64 + 7], 0);
    c.current_op = 0xD012;
    c.OP_Dxyn();
    assert_eq!(c.register[0xF], 1);
    for p in 0..2048usize {
        assert_eq!(c.video_memory[p], 0);
    }
}

#[test]
fn draw_wraps_at_screen_edges() {
    let mut c = fresh();
    c.memory[0x400] = 0b1100_0000;
    c.index = 0x400;
    c.register[2] = 63;
    c.register[3] = 31;
    c.current_op = 0xD231;
    c.OP_Dxyn();
    assert_eq!(c.video_memory[31 * 64 + 63], 1);
    assert_eq!(c.video_memory[31 * 64 + 0], 1);
    assert_eq!(c.register[0xF], 0);
}

#[test]
fn add_sets_carry_and_wraps() {
    let mut c = fresh();
    c.register[1] = 200;
    c.register[2] = 100;
    c.current_op = 0x8124;
    c.OP_8xy4();
    assert_eq!(c.register[1], 44);
    assert_eq!(c.register[0xF], 1);

    let mut c = fresh();
    c.register[1] = 10;
    c.register[2] = 10;
    c.current_op = 0x8124;
    c.OP_8xy4();
    assert_eq!(c.register[1], 20);
    assert_eq!(c.register[0xF], 0);
}

#[test]
fn subtract_with_borrow_wraps() {
    let mut c = fresh();
    c.register[1] = 5;
    c.register[2] = 10;
    c.current_op = 0x8125;
    c.OP_8xy5();
    assert_eq!(c.register[0xF], 0);
    assert_eq!(c.register[1], 251);

    let mut c = fresh();
    c.register[1] = 10;
    c.register[2] = 5;
    c.current_op = 0x8125;
    c.OP_8xy5();
    assert_eq!(c.register[0xF], 1);
    assert_eq!(c.register[1], 5);
}

#[test]
fn reverse_subtract_sets_flag() {
    let mut c = fresh();
    c.register[1] = 3;
    c.register[2] = 10;
    c.current_op = 0x8127;
    c.OP_8xy7();
    assert_eq!(c.register[0xF], 1);
    assert_eq!(c.register[1], 7);
}

#[test]
fn bitwise_ops() {
    let mut c = fresh();
    c.register[1] = 0b1100;
    c.register[2] = 0b1010;
    c.current_op = 0x8121;
    c.OP_8xy1();
    assert_eq!(c.register[1], 0b1110);

    c.register[1] = 0b1100;
    c.current_op = 0x8122;
    c.OP_8xy2();
    assert_eq!(c.register[1], 0b1000);

    c.register[1] = 0b1100;
    c.current_op = 0x8123;
    c.OP_8xy3();
    assert_eq!(c.register[1], 0b0110);

    c.register[1] = 0;
    c.current_op = 0x8120;
    c.OP_8xy0();
    assert_eq!(c.register[1], 0b1010);
}

#[test]
fn shifts_report_the_moved_bit() {
    let mut c = fresh();
    c.register[4] = 0b0000_0101;
    c.current_op = 0x8406;
    c.OP_8xy6();
    assert_eq!(c.register[4], 0b0000_0010);
    assert_eq!(c.register[0xF], 1);

    c.register[4] = 0b1000_0001;
    c.current_op = 0x840E;
    c.OP_8xye();
    assert_eq!(c.register[4], 0b0000_0010);
    assert_eq!(c.register[0xF], 1);
}

#[test]
fn add_immediate_wraps_without_flag() {
    let mut c = fresh();
    c.register[3] = 250;
    c.register[0xF] = 7;
    c.current_op = 0x730A;
    c.OP_7xkk();
    assert_eq!(c.register[3], 4);
    assert_eq!(c.register[0xF], 7);
}

#[test]
fn skips_move_the_program_counter() {
    let mut c = fresh();
    c.register[1] = 0x42;
    c.current_op = 0x3142;
    c.OP_3xkk();
    assert_eq!(c.pc, 0x202);
    c.current_op = 0x3143;
    c.OP_3xkk();
    assert_eq!(c.pc, 0x202);
    c.current_op = 0x4143;
    c.OP_4xkk();
    assert_eq!(c.pc, 0x204);
    c.register[2] = 0x42;
    c.current_op = 0x5120;
    c.OP_5xy0();
    assert_eq!(c.pc, 0x206);
    c.current_op = 0x9120;
    c.OP_9xy0();
    assert_eq!(c.pc, 0x206);
}

#[test]
fn jumps_and_index_loads() {
    let mut c = fresh();
    c.current_op = 0x1234;
    c.OP_1nnn();
    assert_eq!(c.pc, 0x234);

    c.current_op = 0xA123;
    c.OP_Annn();
    assert_eq!(c.index, 0x123);

    c.register[0] = 0x10;
    c.current_op = 0xB200;
    c.OP_Bnnn();
    assert_eq!(c.pc, 0x210);
}

#[test]
fn call_pushes_and_return_pops() {
    let mut c = fresh();
    c.pc = 0x202;
    c.current_op = 0x2400;
    c.OP_2nnn();
    assert_eq!(c.pc, 0x400);
    assert_eq!(c.stack_pointer, 1);
    assert_eq!(c.stack[0], 0x202);
    c.current_op = 0x00EE;
    c.OP_00EE();
    assert_eq!(c.pc, 0x202);
    assert_eq!(c.stack_pointer, 0);
}

#[test]
fn random_masks_into_the_operand() {
    let mut c = fresh();
    c.current_op = 0xC10F;
    c.OP_Cxkk();
    assert_eq!(c.register[1] & 0xF0, 0);
    c.current_op = 0xC200;
    c.OP_Cxkk();
    assert_eq!(c.register[2], 0);
}

#[test]
fn keypad_tests_skip() {
    let mut c = fresh();
    c.register[1] = 0x5;
    c.keypad[5] = 1;
    c.current_op = 0xE19E;
    c.OP_Ex9E();
    assert_eq!(c.pc, 0x202);
    c.current_op = 0xE1A1;
    c.OP_EXA1();
    assert_eq!(c.pc, 0x202);
    c.keypad[5] = 0;
    c.current_op = 0xE1A1;
    c.OP_EXA1();
    assert_eq!(c.pc, 0x204);
}

#[test]
fn wait_for_key_rewinds_or_stores() {
    let mut c = fresh();
    c.pc = 0x204;
    c.current_op = 0xF30A;
    c.OP_Fx0A();
    assert_eq!(c.pc, 0x202);
    c.keypad[9] = 1;
    c.keypad[12] = 1;
    c.current_op = 0xF30A;
    c.OP_Fx0A();
    assert_eq!(c.pc, 0x202);
    assert_eq!(c.register[3], 9);
}

#[test]
fn timer_transfers() {
    let mut c = fresh();
    c.delay_timer = 77;
    c.current_op = 0xF407;
    c.OP_Fx07();
    assert_eq!(c.register[4], 77);
    c.register[5] = 33;
    c.current_op = 0xF515;
    c.OP_Fx15();
    assert_eq!(c.delay_timer, 33);
    c.current_op = 0xF518;
    c.OP_Fx18();
    assert_eq!(c.sound_timer, 33);
}

#[test]
fn index_add_and_font_address() {
    let mut c = fresh();
    c.index = 0x100;
    c.register[6] = 0x30;
    c.current_op = 0xF61E;
    c.OP_Fx1E();
    assert_eq!(c.index, 0x130);

    c.register[7] = 0xA;
    c.current_op = 0xF729;
    c.OP_Fx29();
    assert_eq!(c.index, 0x50 + 5 * 0xA);
    // the glyph for digit A starts with its top row
    assert_eq!(c.memory[c.index as usize], 0xF0);
}

#[test]
fn index_add_wraps_at_sixteen_bits() {
    let mut c = fresh();
    c.index = 0xFFFF;
    c.register[6] = 2;
    c.current_op = 0xF61E;
    c.OP_Fx1E();
    assert_eq!(c.index, 1);
}

#[test]
fn decimal_digits_land_in_memory() {
    let mut c = fresh();
    c.register[2] = 254;
    c.index = 0x500;
    c.current_op = 0xF233;
    c.OP_Fx33();
    assert_eq!(c.memory[0x500], 2);
    assert_eq!(c.memory[0x501], 5);
    assert_eq!(c.memory[0x502], 4);

    c.register[2] = 7;
    c.current_op = 0xF233;
    c.OP_Fx33();
    assert_eq!(c.memory[0x500], 0);
    assert_eq!(c.memory[0x501], 0);
    assert_eq!(c.memory[0x502], 7);
}
