use batpu_host::codec::binary_to_instructions;
use batpu_host::instruction::{Condition, Instruction, Location};
use batpu_host::instruction_array::InstructionArray;
use batpu_host::text::{instructions_to_text, push_decimal, push_line, push_signed_decimal};

fn line(instruction: Instruction) -> String {
    let mut out = String::new();
    push_line(&mut out, &instruction);
    out
}

#[test]
fn decimal_has_no_leading_zeros() {
    let mut out = String::new();
    push_decimal(&mut out, 0);
    out.push(' ');
    push_decimal(&mut out, 7);
    out.push(' ');
    push_decimal(&mut out, 10);
    out.push(' ');
    push_decimal(&mut out, 1023);
    out.push(' ');
    push_decimal(&mut out, u32::MAX);
    assert_eq!(out, "0 7 10 1023 4294967295");
}

#[test]
fn signed_decimal_reaches_both_ends() {
    let mut out = String::new();
    push_signed_decimal(&mut out, i32::MIN);
    out.push(' ');
    push_signed_decimal(&mut out, -1);
    out.push(' ');
    push_signed_decimal(&mut out, 0);
    out.push(' ');
    push_signed_decimal(&mut out, i32::MAX);
    assert_eq!(out, "-2147483648 -1 0 2147483647");
}

#[test]
fn push_appends_to_what_is_there() {
    let mut out = String::from("; ");
    push_line(&mut out, &Instruction::Halt);
    assert_eq!(out, "; hlt");
}

#[test]
fn lines_without_operands() {
    assert_eq!(line(Instruction::NoOperation), "nop");
    assert_eq!(line(Instruction::Halt), "hlt");
    assert_eq!(line(Instruction::Return), "ret");
}

#[test]
fn lines_with_three_registers() {
    assert_eq!(line(Instruction::Addition(1, 2, 3)), "add r1 r2 r3");
    assert_eq!(line(Instruction::Subtraction(15, 0, 9)), "sub r15 r0 r9");
    assert_eq!(line(Instruction::BitwiseNOR(4, 5, 6)), "nor r4 r5 r6");
    assert_eq!(line(Instruction::BitwiseAND(7, 8, 9)), "and r7 r8 r9");
    assert_eq!(line(Instruction::BitwiseXOR(10, 11, 12)), "xor r10 r11 r12");
}

#[test]
fn the_right_shift_is_written_xor() {
    assert_eq!(line(Instruction::RightShift(1, 2)), "xor r1 r2");
}

#[test]
fn lines_with_an_immediate() {
    assert_eq!(line(Instruction::LoadImmediate(1, 255)), "ldi r1 255");
    assert_eq!(line(Instruction::AddImmediate(14, 0)), "adi r14 0");
}

#[test]
fn lines_with_a_location() {
    assert_eq!(line(Instruction::Jump(Location::Address(1023))), "jmp 1023");
    assert_eq!(line(Instruction::Jump(Location::Offset(3))), "jmp +3");
    assert_eq!(line(Instruction::Jump(Location::Offset(0))), "jmp +0");
    assert_eq!(line(Instruction::Jump(Location::Offset(-12))), "jmp -12");
    assert_eq!(line(Instruction::Call(Location::Label(String::from(".draw")))), "cal .draw");
    assert_eq!(line(Instruction::Call(Location::Address(0))), "cal 0");
}

#[test]
fn branch_lines_name_their_condition() {
    let to = || Location::Address(5);
    assert_eq!(line(Instruction::Branch(Condition::Zero, to())), "brh zero 5");
    assert_eq!(line(Instruction::Branch(Condition::NotZero, to())), "brh notzero 5");
    assert_eq!(line(Instruction::Branch(Condition::Carry, to())), "brh carry 5");
    assert_eq!(line(Instruction::Branch(Condition::NotCarry, to())), "brh notcarry 5");
    assert_eq!(
        line(Instruction::Branch(Condition::Zero, Location::Label(String::from(".loop")))),
        "brh zero .loop"
    );
    assert_eq!(
        line(Instruction::Branch(Condition::Carry, Location::Offset(-2))),
        "brh carry -2"
    );
}

#[test]
fn memory_lines_show_a_signed_offset() {
    assert_eq!(line(Instruction::MemoryLoad(1, 2, 7)), "lod r1 r2 7");
    assert_eq!(line(Instruction::MemoryLoad(1, 2, 0)), "lod r1 r2 0");
    assert_eq!(line(Instruction::MemoryStore(3, 4, -8)), "str r3 r4 -8");
}

#[test]
fn lines_are_joined_by_single_newlines() {
    let array = InstructionArray::new_instructions(vec![
        Instruction::LoadImmediate(1, 42),
        Instruction::Addition(1, 1, 2),
        Instruction::Halt,
    ]);
    assert_eq!(instructions_to_text(&array), "ldi r1 42\nadd r1 r1 r2\nhlt");
}

#[test]
fn one_instruction_is_one_line_without_newline() {
    let array = InstructionArray::new_instructions(vec![Instruction::Return]);
    assert_eq!(instructions_to_text(&array), "ret");
}

#[test]
fn no_instructions_give_the_empty_text() {
    let array = InstructionArray::new_instructions(Vec::new());
    assert_eq!(instructions_to_text(&array), "");
}

#[test]
fn errors_give_the_empty_text() {
    let array = InstructionArray::new_errors(vec![String::from("broken")]);
    assert_eq!(instructions_to_text(&array), "");
}

#[test]
fn decoded_binary_reads_as_text() {
    let array = binary_to_instructions(&[0x81, 0x2A, 0xB4, 0x03, 0xF1, 0x28]);
    assert_eq!(instructions_to_text(&array), "ldi r1 42\nbrh notzero 3\nstr r1 r2 -1");
}
