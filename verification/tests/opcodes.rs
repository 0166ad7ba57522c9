use chip8::processor::{process_nibbles, skip_if, Processor, ProcessorAction};

fn fresh() -> Processor {
    Processor::new(64, 32)
}

#[test]
fn decode_round_trip_fields() {
    let (nnn, kk, x, y, n) = process_nibbles((0xD, 0x1, 0x2, 0x3));
    assert_eq!(nnn, 0x123);
    assert_eq!(kk, 0x23);
    assert_eq!(x, 1);
    assert_eq!(y, 2);
    assert_eq!(n, 3);
    // Re-encoding the operand fields reconstructs the nibble tuple.
    assert_eq!(((nnn >> 8) & 0xF) as u8, 0x1);
    assert_eq!(kk >> 4, 0x2);
    assert_eq!(kk & 0xF, 0x3);
}

#[test]
fn decode_round_trip_all_low_bytes() {
    for lo in 0..=255u16 {
        let op = 0xA000 | lo;
        let nib = (
            ((op & 0xF000) >> 12) as u8,
            ((op & 0x0F00) >> 8) as u8,
            ((op & 0x00F0) >> 4) as u8,
            (op & 0x000F) as u8,
        );
        let (nnn, kk, x, y, n) = process_nibbles(nib);
        assert_eq!(nnn, op & 0x0FFF);
        assert_eq!(kk as u16, op & 0x00FF);
        assert_eq!(x as u16, (op & 0x0F00) >> 8);
        assert_eq!(y as u16, (op & 0x00F0) >> 4);
        assert_eq!(n as u16, op & 0x000F);
    }
}

#[test]
fn skip_if_picks_the_action() {
    assert!(matches!(skip_if(true), ProcessorAction::SkipInstruction));
    assert!(matches!(skip_if(false), ProcessorAction::NextInstruction));
}

#[test]
fn load_then_add_one_increments_modulo_256() {
    let mut p = fresh();
    p.op_6xkk((0x6, 0x0, 0x0, 0x5));
    assert_eq!(p.v[0], 0x05);
    p.op_7xkk((0x7, 0x0, 0x0, 0x1));
    assert_eq!(p.v[0], 0x06);
}

#[test]
fn load_then_add_one_wraps_at_255() {
    let mut p = fresh();
    p.op_6xkk((0x6, 0x0, 0xF, 0xF));
    assert_eq!(p.v[0], 0xFF);
    p.op_7xkk((0x7, 0x0, 0x0, 0x1));
    assert_eq!(p.v[0], 0x00);
}

#[test]
fn add_with_carry_threshold_is_strict() {
    // The carry flag reports sums strictly greater than 0x100, so 0x100
    // itself reports no carry.
    let mut p = fresh();
    p.v[0] = 0x80;
    p.v[1] = 0x80;
    p.op_8xy4((0x8, 0x0, 0x1, 0x4));
    assert_eq!(p.v[0], 0x00);
    assert_eq!(p.v[0xF], 0);

    let mut q = fresh();
    q.v[0] = 0x81;
    q.v[1] = 0x80;
    q.op_8xy4((0x8, 0x0, 0x1, 0x4));
    assert_eq!(q.v[0], 0x01);
    assert_eq!(q.v[0xF], 1);
}

#[test]
fn subtract_with_borrow_wraps() {
    let mut p = fresh();
    p.v[0] = 0x05;
    p.v[1] = 0x0A;
    p.op_8xy5((0x8, 0x0, 0x1, 0x5));
    assert_eq!(p.v[0], 0xFB);
    assert_eq!(p.v[0xF], 0);
}

#[test]
fn subtract_with_borrow_sets_flag_when_no_borrow() {
    let mut p = fresh();
    p.v[0] = 0x0A;
    p.v[1] = 0x05;
    p.op_8xy5((0x8, 0x0, 0x1, 0x5));
    assert_eq!(p.v[0], 0x05);
    assert_eq!(p.v[0xF], 1);
}

#[test]
fn reverse_subtract_wraps() {
    let mut p = fresh();
    p.v[0] = 0x0A;
    p.v[1] = 0x05;
    p.op_8xy7((0x8, 0x0, 0x1, 0x7));
    assert_eq!(p.v[0], 0xFB);
    assert_eq!(p.v[0xF], 0);
}

#[test]
fn shift_right_moves_two_positions() {
    // This machine's right shift divides by four and flags the old least
    // significant bit.
    let mut p = fresh();
    p.v[2] = 0b1111;
    p.op_8xy6((0x8, 0x2, 0x0, 0x6));
    assert_eq!(p.v[2], 0b11);
    assert_eq!(p.v[0xF], 1);
}

#[test]
fn shift_left_doubles_and_flags_high_bit() {
    let mut p = fresh();
    p.v[2] = 0x81;
    p.op_8xyE((0x8, 0x2, 0x0, 0xE));
    assert_eq!(p.v[2], 0x02);
    assert_eq!(p.v[0xF], 1);
}

#[test]
fn alu_ops_assign_or_and_xor() {
    let mut p = fresh();
    p.v[0] = 0b1100;
    p.v[1] = 0b1010;
    p.op_8xy0((0x8, 0x2, 0x1, 0x0));
    assert_eq!(p.v[2], 0b1010);
    p.op_8xy1((0x8, 0x0, 0x1, 0x1));
    assert_eq!(p.v[0], 0b1110);
    p.v[0] = 0b1100;
    p.op_8xy2((0x8, 0x0, 0x1, 0x2));
    assert_eq!(p.v[0], 0b1000);
    p.v[0] = 0b1100;
    p.op_8xy3((0x8, 0x0, 0x1, 0x3));
    assert_eq!(p.v[0], 0b0110);
}

#[test]
fn jump_with_offset_writes_index_register() {
    // This machine stores nnn + v[0] in the index register, not the
    // program counter.
    let mut p = fresh();
    p.v[0] = 5;
    let a = p.op_Bnnn((0xB, 0x1, 0x0, 0x0));
    assert_eq!(p.i, 0x105);
    assert_eq!(p.pc, 0x200);
    assert!(matches!(a, ProcessorAction::NextInstruction));
}

#[test]
fn random_masked_with_zero_is_zero() {
    let mut p = fresh();
    p.v[3] = 0x77;
    p.op_Cxkk((0xC, 0x3, 0x0, 0x0));
    assert_eq!(p.v[3], 0);
}

#[test]
fn random_seeded_applies_mask() {
    let mut p = fresh();
    p.op_Cxkk_seeded((0xC, 0x3, 0x0, 0xF), 0xAA);
    assert_eq!(p.v[3], 0x0A);
}

#[test]
fn store_registers_includes_the_bound() {
    let mut p = fresh();
    p.v[0] = 0x11;
    p.v[1] = 0x22;
    p.v[2] = 0x33;
    p.i = 0x300;
    p.op_Fx55((0xF, 0x2, 0x5, 0x5));
    assert_eq!(p.ram[0x300], 0x11);
    assert_eq!(p.ram[0x301], 0x22);
    assert_eq!(p.ram[0x302], 0x33);
    assert_eq!(p.ram[0x303], 0x00);
}

#[test]
fn load_registers_includes_the_bound() {
    let mut p = fresh();
    p.ram[0x300] = 0x11;
    p.ram[0x301] = 0x22;
    p.ram[0x302] = 0x33;
    p.v[3] = 0x77;
    p.i = 0x300;
    p.op_Fx65((0xF, 0x2, 0x6, 0x5));
    assert_eq!(p.v[0], 0x11);
    assert_eq!(p.v[1], 0x22);
    assert_eq!(p.v[2], 0x33);
    assert_eq!(p.v[3], 0x77);
}

#[test]
fn timers_read_and_write() {
    let mut p = fresh();
    p.v[4] = 42;
    p.op_Fx15((0xF, 0x4, 0x1, 0x5));
    assert_eq!(p.delay_timer, 42);
    p.op_Fx18((0xF, 0x4, 0x1, 0x8));
    assert_eq!(p.sound_timer, 42);
    p.delay_timer = 7;
    p.op_Fx07((0xF, 0x5, 0x0, 0x7));
    assert_eq!(p.v[5], 7);
}

#[test]
fn index_register_advances() {
    let mut p = fresh();
    p.i = 0x200;
    p.v[1] = 0x10;
    p.op_Fx1E((0xF, 0x1, 0x1, 0xE));
    assert_eq!(p.i, 0x210);
}

#[test]
fn unimplemented_opcodes_change_nothing() {
    let mut p = fresh();
    p.v[0] = 9;
    let before_v = p.v.clone();
    let before_pc = p.pc;
    assert!(matches!(p.op_Ex9E((0xE, 0x0, 0x9, 0x1)), ProcessorAction::NextInstruction));
    assert!(matches!(p.op_ExA1((0xE, 0x0, 0xA, 0x1)), ProcessorAction::NextInstruction));
    assert!(matches!(p.op_Fx0A((0xF, 0x0, 0x0, 0xA)), ProcessorAction::NextInstruction));
    assert!(matches!(p.op_Fx29((0xF, 0x0, 0x2, 0x9)), ProcessorAction::NextInstruction));
    assert!(matches!(p.op_Fx33((0xF, 0x0, 0x3, 0x3)), ProcessorAction::NextInstruction));
    assert!(matches!(p.op_00Cn((0x0, 0x0, 0xC, 0x1)), ProcessorAction::NextInstruction));
    assert!(matches!(p.op_00FB((0x0, 0x0, 0xF, 0xB)), ProcessorAction::NextInstruction));
    assert!(matches!(p.op_00FC((0x0, 0x0, 0xF, 0xC)), ProcessorAction::NextInstruction));
    assert!(matches!(p.op_00FD((0x0, 0x0, 0xF, 0xD)), ProcessorAction::NextInstruction));
    assert!(matches!(p.op_00FE((0x0, 0x0, 0xF, 0xE)), ProcessorAction::NextInstruction));
    assert!(matches!(p.op_00FF((0x0, 0x0, 0xF, 0xF)), ProcessorAction::NextInstruction));
    assert!(matches!(p.op_Dxy0((0xD, 0x0, 0x0, 0x0)), ProcessorAction::NextInstruction));
    assert!(matches!(p.op_Fx30((0xF, 0x0, 0x3, 0x0)), ProcessorAction::NextInstruction));
    assert!(matches!(p.op_Fx75((0xF, 0x0, 0x7, 0x5)), ProcessorAction::NextInstruction));
    assert!(matches!(p.op_Fx85((0xF, 0x0, 0x8, 0x5)), ProcessorAction::NextInstruction));
    assert_eq!(p.v, before_v);
    assert_eq!(p.pc, before_pc);
}

#[test]
fn comparison_skips() {
    let mut p = fresh();
    p.v[0] = 0x42;
    p.v[1] = 0x42;
    p.v[2] = 0x43;
    assert!(matches!(p.op_3xkk((0x3, 0x0, 0x4, 0x2)), ProcessorAction::SkipInstruction));
    assert!(matches!(p.op_3xkk((0x3, 0x2, 0x4, 0x2)), ProcessorAction::NextInstruction));
    assert!(matches!(p.op_4xkk((0x4, 0x0, 0x4, 0x2)), ProcessorAction::NextInstruction));
    assert!(matches!(p.op_4xkk((0x4, 0x2, 0x4, 0x2)), ProcessorAction::SkipInstruction));
    assert!(matches!(p.op_5xy0((0x5, 0x0, 0x1, 0x0)), ProcessorAction::SkipInstruction));
    assert!(matches!(p.op_5xy0((0x5, 0x0, 0x2, 0x0)), ProcessorAction::NextInstruction));
    assert!(matches!(p.op_9xy0((0x9, 0x0, 0x1, 0x0)), ProcessorAction::NextInstruction));
    assert!(matches!(p.op_9xy0((0x9, 0x0, 0x2, 0x0)), ProcessorAction::SkipInstruction));
}

#[test]
fn call_pushes_and_return_pops() {
    let mut p = fresh();
    p.pc = 0x200;
    let a = p.op_2nnn((0x2, 0x3, 0x0, 0x0));
    assert!(matches!(a, ProcessorAction::JumpInstruction(0x300)));
    assert_eq!(p.sp, 1);
    assert_eq!(p.stack[1], 0x200);
    let b = p.op_00EE();
    assert!(matches!(b, ProcessorAction::JumpInstruction(0x200)));
    assert_eq!(p.sp, 0);
}
