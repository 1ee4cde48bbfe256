use machine::instruction::{Fault, Instruction};
use machine::machine::Machine;

fn text(s: &str) -> Vec<char> {
    s.chars().collect()
}

fn shown(out: &[char]) -> String {
    out.iter().collect()
}

fn run_one(instruction: Instruction, m: &mut Machine) -> String {
    assert_eq!(instruction.trap(m, &[]), None);
    shown(&instruction.execute(m, &[]))
}

fn stack_of(values: &[i32]) -> Machine {
    let mut m = Machine::new();
    for v in values {
        m.stack_push(*v);
    }
    m
}

fn binary(instruction: Instruction, left: i32, right: i32) -> i32 {
    let mut m = stack_of(&[left, right]);
    run_one(instruction, &mut m);
    assert_eq!(m.get_stack_pointer(), 4092);
    m.peek(4092)
}

#[test]
fn push_five_push_three_add_leaves_eight() {
    let mut m = Machine::new();
    run_one(Instruction::Push(Some(5)), &mut m);
    run_one(Instruction::Push(Some(3)), &mut m);
    run_one(Instruction::Add, &mut m);
    assert_eq!(m.peek(m.get_stack_pointer()), 8);
    assert_eq!(m.get_stack_pointer(), 4092);
}

#[test]
fn push_fifteen_neg_leaves_minus_fifteen() {
    let mut m = Machine::new();
    run_one(Instruction::Push(Some(15)), &mut m);
    run_one(Instruction::Neg, &mut m);
    assert_eq!(m.peek(m.get_stack_pointer()), -15);
}

#[test]
fn push_dup_leaves_two_equal_words() {
    let mut m = Machine::new();
    run_one(Instruction::Push(Some(42)), &mut m);
    run_one(Instruction::Dup(0), &mut m);
    assert_eq!(m.get_stack_pointer(), 4088);
    assert_eq!(m.peek(4088), 42);
    assert_eq!(m.peek(4092), 42);
}

#[test]
fn push_of_nothing_pushes_zero() {
    let mut m = stack_of(&[9]);
    run_one(Instruction::Push(None), &mut m);
    assert_eq!(m.get_stack_pointer(), 4088);
    assert_eq!(m.peek(4088), 0);
}

#[test]
fn the_right_operand_is_the_one_pushed_last() {
    assert_eq!(binary(Instruction::Sub, 10, 3), 7);
    assert_eq!(binary(Instruction::Sub, 3, 10), -7);
    assert_eq!(binary(Instruction::Div, 20, 6), 3);
    assert_eq!(binary(Instruction::Rem, 20, 6), 2);
    assert_eq!(binary(Instruction::Lsl, 3, 4), 48);
    assert_eq!(binary(Instruction::Lsr, 48, 4), 3);
}

#[test]
fn multiplication_and_the_bitwise_instructions() {
    assert_eq!(binary(Instruction::Mul, -6, 7), -42);
    assert_eq!(binary(Instruction::And, 0b1100, 0b1010), 0b1000);
    assert_eq!(binary(Instruction::Or, 0b1100, 0b1010), 0b1110);
    assert_eq!(binary(Instruction::Xor, 0b1100, 0b1010), 0b0110);
    assert_eq!(binary(Instruction::And, -1, 0x1234), 0x1234);
}

#[test]
fn division_rounds_toward_zero() {
    assert_eq!(binary(Instruction::Div, -7, 2), -3);
    assert_eq!(binary(Instruction::Div, 7, -2), -3);
    assert_eq!(binary(Instruction::Div, -7, -2), 3);
    assert_eq!(binary(Instruction::Rem, -7, 2), -1);
    assert_eq!(binary(Instruction::Rem, 7, -2), 1);
    assert_eq!(binary(Instruction::Rem, -7, -2), -1);
}

#[test]
fn shifts_to_the_right_keep_the_sign() {
    assert_eq!(binary(Instruction::Lsr, -8, 1), -4);
    assert_eq!(binary(Instruction::Lsr, -1, 31), -1);
    assert_eq!(binary(Instruction::Lsr, 0x0400_0000, 26), 1);
}

#[test]
fn shift_to_the_left_drops_high_bits() {
    assert_eq!(Instruction::Lsl.compute_binary(0x4000_0001, 1), Ok(i32::MIN + 2));
    assert_eq!(Instruction::Lsl.compute_binary(-1, 31), Ok(i32::MIN));
    assert_eq!(Instruction::Lsl.compute_binary(1, 0), Ok(1));
}

#[test]
fn asr_sets_bit_28_where_bit_27_of_the_left_operand_is_set() {
    assert_eq!(Instruction::Asr.compute_binary(0x0400_0000, 2), Ok(0x0100_0000));
    assert_eq!(Instruction::Asr.compute_binary(0x0800_0000, 4), Ok(0x0080_0000 | 0x1000_0000));
    assert_eq!(Instruction::Asr.compute_binary(-16, 2), Ok(-4));
    assert_eq!(Instruction::Asr.compute_binary(0x7000_0000, 0), Ok(0x7000_0000));
    assert_eq!(binary(Instruction::Asr, 64, 3), 8);
}

#[test]
fn not_complements_every_bit() {
    let mut m = stack_of(&[0]);
    run_one(Instruction::Not, &mut m);
    assert_eq!(m.peek(4092), -1);
    let mut m = stack_of(&[0x0000_00FF]);
    run_one(Instruction::Not, &mut m);
    assert_eq!(m.peek(4092), !0xFF);
    assert_eq!(Instruction::Not.compute_unary(i32::MIN), Ok(i32::MAX));
}

#[test]
fn arithmetic_overflow_is_a_fault() {
    assert_eq!(Instruction::Add.compute_binary(i32::MAX, 1), Err(Fault::ArithmeticOverflow));
    assert_eq!(Instruction::Add.compute_binary(i32::MAX, 0), Ok(i32::MAX));
    assert_eq!(Instruction::Sub.compute_binary(i32::MIN, 1), Err(Fault::ArithmeticOverflow));
    assert_eq!(Instruction::Mul.compute_binary(0x10000, 0x8000), Err(Fault::ArithmeticOverflow));
    assert_eq!(Instruction::Mul.compute_binary(0x10000, -0x8000), Ok(i32::MIN));
    assert_eq!(Instruction::Div.compute_binary(i32::MIN, -1), Err(Fault::ArithmeticOverflow));
    assert_eq!(Instruction::Rem.compute_binary(i32::MIN, -1), Err(Fault::ArithmeticOverflow));
    assert_eq!(Instruction::Neg.compute_unary(i32::MIN), Err(Fault::ArithmeticOverflow));
    assert_eq!(Instruction::Neg.compute_unary(i32::MAX), Ok(-i32::MAX));
}

#[test]
fn division_by_zero_is_a_fault() {
    assert_eq!(Instruction::Div.compute_binary(1, 0), Err(Fault::DivisionByZero));
    assert_eq!(Instruction::Rem.compute_binary(1, 0), Err(Fault::DivisionByZero));
    assert_eq!(Instruction::Div.compute_binary(i32::MIN, 0), Err(Fault::DivisionByZero));
    let m = stack_of(&[6, 0]);
    assert_eq!(Instruction::Div.trap(&m, &[]), Some(Fault::DivisionByZero));
    assert_eq!(Instruction::Rem.trap(&m, &[]), Some(Fault::DivisionByZero));
    assert_eq!(Instruction::Add.trap(&m, &[]), None);
}

#[test]
fn a_shift_out_of_range_is_a_fault() {
    for op in [Instruction::Lsl, Instruction::Lsr, Instruction::Asr] {
        assert_eq!(op.compute_binary(1, 32), Err(Fault::ShiftOutOfRange));
        assert_eq!(op.compute_binary(1, -1), Err(Fault::ShiftOutOfRange));
        assert_eq!(op.compute_binary(1, i32::MIN), Err(Fault::ShiftOutOfRange));
        assert!(op.compute_binary(1, 31).is_ok());
        assert!(op.compute_binary(1, 0).is_ok());
    }
    let m = stack_of(&[1, 40]);
    assert_eq!(Instruction::Lsl.trap(&m, &[]), Some(Fault::ShiftOutOfRange));
}

#[test]
fn arithmetic_without_operands_is_a_fault() {
    let empty = Machine::new();
    let one = stack_of(&[1]);
    let two = stack_of(&[1, 2]);
    assert_eq!(Instruction::Add.trap(&empty, &[]), Some(Fault::StackUnderflow));
    assert_eq!(Instruction::Add.trap(&one, &[]), Some(Fault::StackUnderflow));
    assert_eq!(Instruction::Add.trap(&two, &[]), None);
    assert_eq!(Instruction::Neg.trap(&empty, &[]), Some(Fault::StackUnderflow));
    assert_eq!(Instruction::Neg.trap(&one, &[]), None);
    assert_eq!(Instruction::Not.trap(&empty, &[]), Some(Fault::StackUnderflow));
    let mut odd = stack_of(&[1, 2]);
    odd.sp_jump(4089);
    assert_eq!(Instruction::Mul.trap(&odd, &[]), Some(Fault::StackUnderflow));
    odd.sp_jump(4093);
    assert_eq!(Instruction::Neg.trap(&odd, &[]), Some(Fault::StackUnderflow));
}

#[test]
fn a_push_without_room_is_a_fault() {
    let mut m = Machine::new();
    m.sp_jump(3);
    for op in [
        Instruction::Push(Some(1)),
        Instruction::Push(None),
        Instruction::Dup(0),
        Instruction::Input,
        Instruction::Call([0, 0, 0, 0x50]),
        Instruction::StInput([9, 0, 0, 0x05]),
    ] {
        assert_eq!(op.trap(&m, &text("")), Some(Fault::StackOverflow));
    }
    m.sp_jump(4);
    assert_eq!(Instruction::Push(Some(1)).trap(&m, &[]), None);
    run_one(Instruction::Push(Some(1)), &mut m);
    assert_eq!(m.get_stack_pointer(), 0);
    assert_eq!(m.peek(0), 1);
}

#[test]
fn instructions_without_operands_never_fault() {
    let mut m = Machine::new();
    m.sp_jump(0);
    for op in [
        Instruction::Exit,
        Instruction::Nop,
        Instruction::Debug,
        Instruction::Dump,
        Instruction::Pop(8),
        Instruction::Print(0, 0),
        Instruction::Goto([0, 0, 0, 0x70]),
        Instruction::BinaryIf([0, 0, 0, 0x80]),
        Instruction::UnaryIf([0, 0, 0, 0x90]),
    ] {
        assert_eq!(op.trap(&m, &[]), None);
    }
}

#[test]
fn exit_nop_and_debug_change_nothing() {
    for op in [Instruction::Exit, Instruction::Nop, Instruction::Debug] {
        let mut m = stack_of(&[1, 2]);
        m.pc_jump(8);
        assert_eq!(run_one(op, &mut m), "");
        assert_eq!(m.get_stack_pointer(), 4088);
        assert_eq!(m.get_program_counter(), 8);
        assert_eq!(m.peek(4088), 2);
    }
}

#[test]
fn dup_reads_relative_to_the_stack_pointer() {
    let mut m = stack_of(&[10, 20, 30]);
    run_one(Instruction::Dup(8), &mut m);
    assert_eq!(m.peek(m.get_stack_pointer()), 10);
    run_one(Instruction::Dup(4), &mut m);
    assert_eq!(m.peek(m.get_stack_pointer()), 30);
    assert_eq!(m.get_stack_pointer(), 4076);
}

#[test]
fn dup_from_outside_memory_pushes_zero() {
    let mut m = stack_of(&[10]);
    run_one(Instruction::Dup(4), &mut m);
    assert_eq!(m.peek(4088), 0);
    run_one(Instruction::Dup(0x0FFF_FFFF), &mut m);
    assert_eq!(m.peek(4084), 0);
    run_one(Instruction::Dup(-5000), &mut m);
    assert_eq!(m.peek(4080), 0);
    assert_eq!(m.get_stack_pointer(), 4080);
}

#[test]
fn pop_moves_the_stack_pointer_up_to_the_top_at_most() {
    let mut m = stack_of(&[1, 2, 3]);
    run_one(Instruction::Pop(4), &mut m);
    assert_eq!(m.get_stack_pointer(), 4088);
    run_one(Instruction::Pop(0), &mut m);
    assert_eq!(m.get_stack_pointer(), 4088);
    run_one(Instruction::Pop(100), &mut m);
    assert_eq!(m.get_stack_pointer(), 4096);
    run_one(Instruction::Pop(4), &mut m);
    assert_eq!(m.get_stack_pointer(), 4096);
    let mut m = stack_of(&[1]);
    run_one(Instruction::Pop(u32::MAX), &mut m);
    assert_eq!(m.get_stack_pointer(), 4096);
    let mut m = stack_of(&[1]);
    run_one(Instruction::Pop(3), &mut m);
    assert_eq!(m.get_stack_pointer(), 4095);
}

#[test]
fn swap_exchanges_one_byte_not_a_word() {
    let mut m = stack_of(&[0x0102_0304, 0x0506_0708]);
    // from = +1 word (bits 12..23), to = 0 (bits 0..11)
    run_one(Instruction::Swap([0x00, 0x10, 0x00, 0x01]), &mut m);
    assert_eq!(m.peek(4088), 0x0506_0704);
    assert_eq!(m.peek(4092), 0x0102_0308);
    assert_eq!(m.get_stack_pointer(), 4088);
}

#[test]
fn swap_takes_negative_displacements() {
    let mut m = stack_of(&[0x11, 0x22, 0x33]);
    m.sp_jump(4092);
    // from = -1 word (0xFFF), to = -2 words (0xFFE)
    run_one(Instruction::Swap([0xFE, 0xFF, 0xFF, 0x01]), &mut m);
    assert_eq!(m.peek(4088), 0x33);
    assert_eq!(m.peek(4084), 0x22);
    assert_eq!(m.peek(4092), 0x11);
}

#[test]
fn swap_outside_memory_is_a_fault() {
    let m = Machine::new();
    assert_eq!(Instruction::Swap([0x00, 0x00, 0x00, 0x01]).trap(&m, &[]), Some(Fault::AddressOutOfRange));
    assert_eq!(Instruction::Swap([0xFF, 0xFF, 0xFF, 0x01]).trap(&m, &[]), None);
    let mut low = Machine::new();
    low.sp_jump(0);
    assert_eq!(Instruction::Swap([0xFF, 0x0F, 0x00, 0x01]).trap(&low, &[]), Some(Fault::AddressOutOfRange));
    assert_eq!(Instruction::Swap([0x00, 0xF0, 0xFF, 0x01]).trap(&low, &[]), Some(Fault::AddressOutOfRange));
    assert_eq!(Instruction::Swap([0x01, 0x20, 0x00, 0x01]).trap(&low, &[]), None);
}

#[test]
fn goto_adds_its_displacement_to_the_program_counter() {
    let mut m = Machine::new();
    m.pc_jump(100);
    run_one(Instruction::Goto([0x10, 0, 0, 0x70]), &mut m);
    assert_eq!(m.get_program_counter(), 116);
    // -8 in 28 bits
    run_one(Instruction::Goto([0xF8, 0xFF, 0xFF, 0x7F]), &mut m);
    assert_eq!(m.get_program_counter(), 108);
    // the two low bits of the field do not count
    run_one(Instruction::Goto([0x07, 0, 0, 0x70]), &mut m);
    assert_eq!(m.get_program_counter(), 112);
}

#[test]
fn a_jump_below_zero_wraps_around() {
    let mut m = Machine::new();
    m.pc_jump(4);
    run_one(Instruction::Goto([0xF8, 0xFF, 0xFF, 0x7F]), &mut m);
    assert_eq!(m.get_program_counter(), usize::MAX - 3);
}

#[test]
fn call_pushes_the_return_address_and_jumps() {
    let mut m = Machine::new();
    m.pc_jump(20);
    run_one(Instruction::Call([0x28, 0, 0, 0x50]), &mut m);
    assert_eq!(m.get_program_counter(), 60);
    assert_eq!(m.get_stack_pointer(), 4092);
    assert_eq!(m.peek(4092), 24);
}

#[test]
fn return_drops_the_frame_and_jumps_back() {
    let mut m = stack_of(&[24, 7, 8]);
    run_one(Instruction::Return([0x08, 0, 0, 0x60]), &mut m);
    assert_eq!(m.get_program_counter(), 24);
    assert_eq!(m.get_stack_pointer(), 4096);
}

#[test]
fn return_to_a_negative_address_wraps_around() {
    let mut m = stack_of(&[-4]);
    run_one(Instruction::Return([0, 0, 0, 0x60]), &mut m);
    assert_eq!(m.get_program_counter(), usize::MAX - 3);
}

#[test]
fn return_without_a_word_to_pop_is_a_fault() {
    let m = Machine::new();
    assert_eq!(Instruction::Return([0, 0, 0, 0x60]).trap(&m, &[]), Some(Fault::StackUnderflow));
    let one = stack_of(&[24]);
    assert_eq!(Instruction::Return([0, 0, 0, 0x60]).trap(&one, &[]), None);
    assert_eq!(Instruction::Return([4, 0, 0, 0x60]).trap(&one, &[]), Some(Fault::StackUnderflow));
    // a frame below address 0 leaves the stack empty
    let mut low = Machine::new();
    low.sp_jump(4);
    assert_eq!(Instruction::Return([0xF8, 0xFF, 0xFF, 0x6F]).trap(&low, &[]), Some(Fault::StackUnderflow));
    assert_eq!(Instruction::Return([0xFC, 0xFF, 0xFF, 0x6F]).trap(&low, &[]), None);
}

fn branch_two(code: u8, left: i32, right: i32) -> usize {
    let mut m = stack_of(&[left, right]);
    m.pc_jump(100);
    run_one(Instruction::BinaryIf([0x20, 0, 0, 0x80 | (code << 1)]), &mut m);
    assert_eq!(m.get_stack_pointer(), 4088);
    m.get_program_counter()
}

#[test]
fn binary_if_eq_jumps_on_equal_words_and_falls_through_otherwise() {
    assert_eq!(branch_two(0, 7, 7), 132);
    assert_eq!(branch_two(0, 7, 8), 104);
}

#[test]
fn binary_if_conditions() {
    assert_eq!(branch_two(1, 7, 8), 132);
    assert_eq!(branch_two(1, 7, 7), 104);
    assert_eq!(branch_two(2, 7, 8), 132);
    assert_eq!(branch_two(2, 8, 7), 104);
    assert_eq!(branch_two(2, 7, 7), 104);
    assert_eq!(branch_two(3, 8, 7), 132);
    assert_eq!(branch_two(3, 7, 8), 104);
    assert_eq!(branch_two(4, 7, 7), 132);
    assert_eq!(branch_two(4, -1, 7), 132);
    assert_eq!(branch_two(4, 8, 7), 104);
    assert_eq!(branch_two(5, 7, 7), 132);
    assert_eq!(branch_two(5, 8, 7), 132);
    assert_eq!(branch_two(5, 6, 7), 104);
    assert_eq!(branch_two(6, 7, 7), 104);
    assert_eq!(branch_two(7, 7, 7), 104);
}

#[test]
fn binary_if_takes_a_24_bit_displacement() {
    let mut m = stack_of(&[1, 1]);
    m.pc_jump(100);
    // -16 in 24 bits; bit 24 of the word belongs to the fourth byte and does not count
    run_one(Instruction::BinaryIf([0xF0, 0xFF, 0xFF, 0x81]), &mut m);
    assert_eq!(m.get_program_counter(), 84);
}

#[test]
fn binary_if_on_a_short_stack_reads_zero() {
    let mut m = stack_of(&[0]);
    m.pc_jump(100);
    run_one(Instruction::BinaryIf([0x20, 0, 0, 0x80]), &mut m);
    assert_eq!(m.get_program_counter(), 132);
    let mut m = stack_of(&[5]);
    m.pc_jump(100);
    run_one(Instruction::BinaryIf([0x20, 0, 0, 0x80]), &mut m);
    assert_eq!(m.get_program_counter(), 104);
}

fn branch_one(code: u8, value: i32) -> usize {
    let mut m = stack_of(&[value]);
    m.pc_jump(100);
    run_one(Instruction::UnaryIf([0x20, 0, 0, 0x90 | (code << 1)]), &mut m);
    assert_eq!(m.get_stack_pointer(), 4092);
    m.get_program_counter()
}

#[test]
fn unary_if_conditions() {
    assert_eq!(branch_one(0, 0), 132);
    assert_eq!(branch_one(0, 1), 104);
    assert_eq!(branch_one(1, 1), 132);
    assert_eq!(branch_one(1, 0), 104);
    assert_eq!(branch_one(2, -1), 132);
    assert_eq!(branch_one(2, 0), 104);
    assert_eq!(branch_one(3, 1), 132);
    assert_eq!(branch_one(3, 0), 104);
    assert_eq!(branch_one(3, -1), 104);
}

#[test]
fn unary_if_reads_two_bits_of_condition() {
    // bit 3 of the fourth byte is no part of the code
    let mut m = stack_of(&[0]);
    m.pc_jump(100);
    run_one(Instruction::UnaryIf([0x20, 0, 0, 0x98]), &mut m);
    assert_eq!(m.get_program_counter(), 132);
}

#[test]
fn print_formats() {
    let mut m = stack_of(&[255]);
    assert_eq!(run_one(Instruction::Print(0, 0), &mut m), "255\n");
    assert_eq!(run_one(Instruction::Print(0, 1), &mut m), "0xff\n");
    assert_eq!(run_one(Instruction::Print(0, 2), &mut m), "0b11111111\n");
    assert_eq!(run_one(Instruction::Print(0, 3), &mut m), "0o377\n");
    assert_eq!(m.get_stack_pointer(), 4092);
}

#[test]
fn print_of_negative_words() {
    let mut m = stack_of(&[-15]);
    assert_eq!(run_one(Instruction::Print(0, 0), &mut m), "-15\n");
    assert_eq!(run_one(Instruction::Print(0, 1), &mut m), "0xfffffff1\n");
    assert_eq!(run_one(Instruction::Print(0, 2), &mut m), "0b11111111111111111111111111110001\n");
    assert_eq!(run_one(Instruction::Print(0, 3), &mut m), "0o37777777761\n");
    let mut m = stack_of(&[i32::MIN]);
    assert_eq!(run_one(Instruction::Print(0, 0), &mut m), "-2147483648\n");
    assert_eq!(run_one(Instruction::Print(0, 1), &mut m), "0x80000000\n");
}

#[test]
fn print_of_zero_and_of_a_word_outside_memory() {
    let mut m = stack_of(&[0]);
    assert_eq!(run_one(Instruction::Print(0, 0), &mut m), "0\n");
    assert_eq!(run_one(Instruction::Print(0, 1), &mut m), "0x0\n");
    assert_eq!(run_one(Instruction::Print(0, 2), &mut m), "0b0\n");
    assert_eq!(run_one(Instruction::Print(0, 3), &mut m), "0o0\n");
    let mut m = stack_of(&[9]);
    assert_eq!(run_one(Instruction::Print(4, 0), &mut m), "0\n");
}

#[test]
fn print_reads_relative_to_the_stack_pointer() {
    let mut m = stack_of(&[10, 20, 30]);
    assert_eq!(run_one(Instruction::Print(0, 0), &mut m), "30\n");
    assert_eq!(run_one(Instruction::Print(4, 0), &mut m), "20\n");
    assert_eq!(run_one(Instruction::Print(8, 0), &mut m), "10\n");
}

#[test]
fn print_with_a_format_that_no_word_encodes() {
    let mut m = stack_of(&[10]);
    assert_eq!(run_one(Instruction::Print(0, 7), &mut m), "\tPRINT: Invalid format: 7\n");
    assert_eq!(run_one(Instruction::Print(0, 255), &mut m), "\tPRINT: Invalid format: 255\n");
}

#[test]
fn dump_of_an_empty_stack_writes_nothing() {
    let mut m = Machine::new();
    assert_eq!(run_one(Instruction::Dump, &mut m), "");
}

#[test]
fn dump_writes_one_line_for_each_word() {
    let mut m = stack_of(&[1, -1, 0x1234]);
    assert_eq!(
        run_one(Instruction::Dump, &mut m),
        "0ff4: 00001234\n0ff8: ffffffff\n0ffc: 00000001\n"
    );
    assert_eq!(m.get_stack_pointer(), 4084);
}

#[test]
fn dump_from_an_odd_address() {
    let mut m = stack_of(&[0x0102_0304]);
    m.sp_jump(4090);
    assert_eq!(run_one(Instruction::Dump, &mut m), "0ffa: 03040000\n0ffe: 00000000\n");
    let mut m = Machine::new();
    m.sp_jump(0x0010);
    m.load_bytes(&[0; 20]);
    let out = run_one(Instruction::Dump, &mut m);
    assert!(out.starts_with("0010: 00000000\n0014: 00000000\n"));
    assert_eq!(out.len(), 15 * (4096 - 16) / 4);
}

#[test]
fn st_print_writes_bytes_up_to_a_zero() {
    let mut m = Machine::new();
    m.load_bytes(b"Hi\x01!\x00no");
    m.sp_jump(0);
    assert_eq!(run_one(Instruction::StPrint([0, 0, 0, 0x40]), &mut m), "Hi!");
    assert_eq!(run_one(Instruction::StPrint([4, 0, 0, 0x40]), &mut m), "");
    assert_eq!(run_one(Instruction::StPrint([5, 0, 0, 0x40]), &mut m), "");
    assert_eq!(run_one(Instruction::StPrint([8, 0, 0, 0x40]), &mut m), "");
    m.sp_jump(5);
    assert_eq!(run_one(Instruction::StPrint([0, 0, 0, 0x40]), &mut m), "no");
    assert_eq!(m.get_stack_pointer(), 5);
}

#[test]
fn st_print_stops_at_the_top_of_memory() {
    let mut m = Machine::new();
    let bytes = vec![b'z'; 4096];
    m.load_bytes(&bytes);
    m.sp_jump(4093);
    assert_eq!(run_one(Instruction::StPrint([0, 0, 0, 0x40]), &mut m), "zzz");
    assert_eq!(run_one(Instruction::StPrint([4, 0, 0, 0x40]), &mut m), "");
}

#[test]
fn st_print_writes_high_bytes_as_characters() {
    let mut m = Machine::new();
    m.load_bytes(&[0xE9, 0x7F, 0x80, 0xFF, 0x02]);
    m.sp_jump(0);
    assert_eq!(run_one(Instruction::StPrint([0, 0, 0, 0x40]), &mut m), "\u{e9}\u{7f}\u{80}\u{ff}\u{2}");
}

#[test]
fn st_print_below_memory_is_a_fault() {
    let mut m = Machine::new();
    m.sp_jump(4);
    assert_eq!(Instruction::StPrint([0xF8, 0xFF, 0xFF, 0x4F]).trap(&m, &[]), Some(Fault::AddressOutOfRange));
    assert_eq!(Instruction::StPrint([0xFC, 0xFF, 0xFF, 0x4F]).trap(&m, &[]), None);
    assert_eq!(run_one(Instruction::StPrint([0xFC, 0xFF, 0xFF, 0x4F]), &mut m), "");
}

fn input(line: &str) -> i32 {
    let mut m = Machine::new();
    let line = text(line);
    assert_eq!(Instruction::Input.trap(&m, &line), None);
    assert_eq!(shown(&Instruction::Input.execute(&mut m, &line)), "");
    assert_eq!(m.get_stack_pointer(), 4092);
    m.peek(4092)
}

#[test]
fn input_reads_decimal_hexadecimal_and_binary() {
    assert_eq!(input("42\n"), 42);
    assert_eq!(input("  -17  \r\n"), -17);
    assert_eq!(input("+9"), 9);
    assert_eq!(input("0x1f"), 31);
    assert_eq!(input("0X1F"), 31);
    assert_eq!(input("0b101"), 5);
    assert_eq!(input("0B101"), 5);
    assert_eq!(input("0x-a"), -10);
    assert_eq!(input("0b+11"), 3);
    assert_eq!(input("007"), 7);
}

#[test]
fn input_that_writes_no_number_pushes_zero() {
    for line in ["", "\n", "abc", "12a", "0x", "0xg", "0b2", "-", "+", "0x-", "1 2", "--1", "0o17", "1.5"] {
        assert_eq!(input(line), 0, "{:?}", line);
    }
}

#[test]
fn input_that_does_not_fit_pushes_zero() {
    assert_eq!(input("2147483648"), 0);
    assert_eq!(input("-2147483649"), 0);
    assert_eq!(input("0x80000000"), 0);
    assert_eq!(input("99999999999999999999999999999999"), 0);
    assert_eq!(input("0b11111111111111111111111111111111"), 0);
}

#[test]
fn input_is_pushed_like_any_word() {
    assert_eq!(input("2147483647"), -1);
    assert_eq!(input("-2147483648"), i32::MIN);
    assert_eq!(input("0x7fffffff"), -1);
    assert_eq!(input("134217727"), 134217727);
    assert_eq!(input("134217728"), 0xF800_0000u32 as i32);
    assert_eq!(input("0b1111111111111111111111111111111"), -1);
}

#[test]
fn input_is_trimmed_of_every_white_space() {
    assert_eq!(input("\u{a0}\u{2003}\t12\u{3000}\u{85}\n"), 12);
    assert_eq!(input("\u{200b}12"), 0);
}

fn string_input(line: &str, window: [u8; 3]) -> Vec<i32> {
    let mut m = Machine::new();
    let line = text(line);
    let op = Instruction::StInput([window[0], window[1], window[2], 0x05]);
    assert_eq!(op.trap(&m, &line), None);
    assert_eq!(shown(&op.execute(&mut m, &line)), "");
    let mut words = Vec::new();
    let mut addr = m.get_stack_pointer();
    while addr < 4096 {
        words.push(m.peek(addr));
        addr += 4;
    }
    words
}

#[test]
fn string_input_of_an_empty_line_pushes_zero() {
    assert_eq!(string_input("", [10, 0, 0]), vec![0]);
    assert_eq!(string_input("  \n", [10, 0, 0]), vec![0]);
    assert_eq!(string_input("\n", [0, 0, 0]), vec![0]);
}

#[test]
fn string_input_packs_three_characters_to_a_word() {
    assert_eq!(string_input("abc\n", [10, 0, 0]), vec![0x0063_6261]);
    assert_eq!(string_input("abcdef", [10, 0, 0]), vec![0x0163_6261, 0x0066_6564]);
    assert_eq!(
        string_input("abcdefghi", [0xFF, 0xFF, 0xFF]),
        vec![0x0163_6261, 0x0166_6564, 0x0069_6867]
    );
}

#[test]
fn string_input_pads_the_tail_with_ones() {
    assert_eq!(string_input("a", [10, 0, 0]), vec![0x0001_0161]);
    assert_eq!(string_input("ab", [10, 0, 0]), vec![0x0001_6261]);
    assert_eq!(string_input("abcd", [10, 0, 0]), vec![0x0163_6261, 0x0001_0164]);
    assert_eq!(string_input("abcde", [10, 0, 0]), vec![0x0163_6261, 0x0001_6564]);
}

#[test]
fn string_input_takes_no_more_than_its_window() {
    assert_eq!(string_input("abcdef", [4, 0, 0]), vec![0x0163_6261, 0x0001_0164]);
    assert_eq!(string_input("abcdef", [3, 0, 0]), vec![0x0063_6261]);
    assert_eq!(string_input("abcdef", [1, 0, 0]), vec![0x0001_0161]);
    assert_eq!(string_input("  abcdef  ", [2, 0, 0]), vec![0x0001_6261]);
    assert_eq!(string_input("ab", [0, 1, 0]), vec![0x0001_6261]);
}

#[test]
fn string_input_of_wide_characters_overlaps_their_codes() {
    assert_eq!(string_input("\u{20ac}", [10, 0, 0]), vec![0x0001_21AC]);
    assert_eq!(string_input("a\u{20ac}", [10, 0, 0]), vec![0x0021_AC61]);
    assert_eq!(
        string_input("ab\u{10FFFF}", [10, 0, 0]),
        vec![((0x10FFFFu32 << 16) | 0x6261) as i32]
    );
    // a code that sets bit 27 of the word is extended like any pushed word
    assert_eq!(string_input("ab\u{801}", [10, 0, 0]), vec![0xF801_6261u32 as i32]);
}

#[test]
fn string_input_into_a_window_of_zero_is_a_fault() {
    let m = Machine::new();
    let op = Instruction::StInput([0, 0, 0, 0x05]);
    assert_eq!(op.trap(&m, &text("abc")), Some(Fault::AddressOutOfRange));
    assert_eq!(op.trap(&m, &text("   ")), None);
}

#[test]
fn string_input_without_room_for_every_word_is_a_fault() {
    let mut m = Machine::new();
    m.sp_jump(8);
    let op = Instruction::StInput([0xFF, 0, 0, 0x05]);
    assert_eq!(op.trap(&m, &text("abcdef")), None);
    assert_eq!(op.trap(&m, &text("abcdefg")), Some(Fault::StackOverflow));
    m.sp_jump(11);
    assert_eq!(op.trap(&m, &text("abcdefg")), Some(Fault::StackOverflow));
    m.sp_jump(12);
    assert_eq!(op.trap(&m, &text("abcdefg")), None);
    let long: String = std::iter::repeat('x').take(3073).collect();
    let full = Machine::new();
    assert_eq!(Instruction::StInput([0xFF, 0xFF, 0, 0x05]).trap(&full, &text(&long)), Some(Fault::StackOverflow));
    assert_eq!(Instruction::StInput([0xFF, 0xFF, 0, 0x05]).trap(&full, &text(&long[1..])), None);
}

#[test]
fn only_input_instructions_read_the_line() {
    let line = text("99");
    let mut m = stack_of(&[1, 2]);
    assert_eq!(shown(&Instruction::Add.execute(&mut m, &line)), "");
    assert_eq!(m.peek(4092), 3);
    assert!(Instruction::Input.reads_line());
    assert!(Instruction::StInput([0; 4]).reads_line());
    assert!(!Instruction::Add.reads_line());
    assert!(!Instruction::Print(0, 0).reads_line());
}

#[test]
fn which_instructions_branch_and_which_print() {
    for op in [
        Instruction::Goto([0; 4]),
        Instruction::BinaryIf([0; 4]),
        Instruction::UnaryIf([0; 4]),
        Instruction::Return([0; 4]),
        Instruction::Call([0; 4]),
    ] {
        assert!(op.branches());
        assert!(!op.prints());
    }
    for op in [Instruction::Print(0, 0), Instruction::Dump, Instruction::StPrint([0; 4])] {
        assert!(op.prints());
        assert!(!op.branches());
    }
    for op in [Instruction::Exit, Instruction::Add, Instruction::Push(None), Instruction::Swap([0; 4])] {
        assert!(!op.prints());
        assert!(!op.branches());
    }
}

#[test]
fn print_writes_what_the_standard_formats_write() {
    for v in [0, 1, -1, 7, 8, 255, 256, -256, 0x0123_4567, i32::MAX, i32::MIN, -0x0800_0000, 0x07FF_FFFF] {
        let mut m = Machine::new();
        m.stack_push(v);
        let stored = m.peek(4092);
        assert_eq!(run_one(Instruction::Print(0, 0), &mut m), format!("{}\n", stored));
        assert_eq!(run_one(Instruction::Print(0, 1), &mut m), format!("0x{:x}\n", stored));
        assert_eq!(run_one(Instruction::Print(0, 2), &mut m), format!("0b{:b}\n", stored));
        assert_eq!(run_one(Instruction::Print(0, 3), &mut m), format!("0o{:o}\n", stored));
    }
}

#[test]
fn dump_writes_what_the_standard_formats_write() {
    let mut m = Machine::new();
    let mut expected = String::new();
    for v in [-1, 0x0123_4567, 0, -0x0800_0000, 42] {
        m.stack_push(v);
        let addr = m.get_stack_pointer();
        expected = format!("{:04x}: {:08x}\n", addr, m.peek(addr)) + &expected;
    }
    assert_eq!(run_one(Instruction::Dump, &mut m), expected);
}

#[test]
fn many_pushes_then_as_many_pops_return_the_words_in_reverse() {
    let mut m = Machine::new();
    m.sp_jump(4000);
    let values: Vec<i32> = (0..1000).map(|i| (i * 7919 - 3_000_000) % 0x0800_0000).collect();
    for v in &values {
        assert_eq!(Instruction::Push(Some(*v)).trap(&m, &[]), None);
        run_one(Instruction::Push(Some(*v)), &mut m);
    }
    assert_eq!(m.get_stack_pointer(), 0);
    assert_eq!(Instruction::Push(Some(1)).trap(&m, &[]), Some(Fault::StackOverflow));
    for v in values.iter().rev() {
        assert_eq!(m.stack_pop(), *v);
    }
    assert_eq!(m.get_stack_pointer(), 4000);
}

#[test]
fn call_from_a_far_program_counter_pushes_its_low_bits() {
    let mut m = Machine::new();
    m.pc_jump(0x7FFF_FFFC);
    run_one(Instruction::Call([8, 0, 0, 0x50]), &mut m);
    assert_eq!(m.peek(4092), i32::MIN);
    assert_eq!(m.get_program_counter(), 0x8000_0004);
    let mut m = Machine::new();
    m.pc_jump(usize::MAX);
    run_one(Instruction::Goto([8, 0, 0, 0x70]), &mut m);
    assert_eq!(m.get_program_counter(), 7);
}

#[test]
fn a_decoded_dup_reads_the_word_under_an_empty_stack() {
    let mut m = Machine::new();
    m.stack_push(7);
    m.sp_jump(4096);
    let dup = Instruction::decode_instruction(&[0xFC, 0xFF, 0xFF, 0xCF]).unwrap();
    assert_eq!(dup, Instruction::Dup(-4));
    run_one(dup, &mut m);
    assert_eq!(m.get_stack_pointer(), 4092);
    assert_eq!(m.peek(4092), 7);
}

#[test]
fn dup_and_print_below_the_stack_pointer() {
    let mut m = stack_of(&[10, 20, 30]);
    m.sp_jump(4096);
    assert_eq!(run_one(Instruction::Print(-4, 0), &mut m), "10\n");
    assert_eq!(run_one(Instruction::Print(-12, 0), &mut m), "30\n");
    assert_eq!(run_one(Instruction::Print(-4096, 0), &mut m), "0\n");
    assert_eq!(run_one(Instruction::Print(-4100, 0), &mut m), "0\n");
    m.sp_jump(4092);
    run_one(Instruction::Dup(-8), &mut m);
    assert_eq!(m.get_stack_pointer(), 4088);
    assert_eq!(m.peek(4088), 30);
}
