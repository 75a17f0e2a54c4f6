//! Mnemonic text of instructions.

use crate::instruction::{Condition, Instruction, Location};
use crate::instruction_array::{Contents, InstructionArray};
use vstd::prelude::*;
use vstd::string::*;

verus! {

/// The character of a decimal digit.
pub open spec fn digit_char(d: nat) -> char {
    if d == 0 {
        '0'
    } else if d == 1 {
        '1'
    } else if d == 2 {
        '2'
    } else if d == 3 {
        '3'
    } else if d == 4 {
        '4'
    } else if d == 5 {
        '5'
    } else if d == 6 {
        '6'
    } else if d == 7 {
        '7'
    } else if d == 8 {
        '8'
    } else {
        '9'
    }
}

/// A natural number in decimal, without leading zeros.
pub open spec fn decimal(n: nat) -> Seq<char>
    decreases n,
{
    if n < 10 {
        seq![digit_char(n)]
    } else {
        decimal(n / 10).push(digit_char(n % 10))
    }
}

/// An integer in decimal, with a minus sign where it is negative.
pub open spec fn signed_decimal(i: int) -> Seq<char> {
    if i < 0 {
        seq!['-'] + decimal((-i) as nat)
    } else {
        decimal(i as nat)
    }
}

fn digit_str(d: u8) -> (s: &'static str)
    requires
        d < 10,
    ensures
        s@ == seq![digit_char(d as nat)],
{
    proof {
        reveal_strlit("0");
        reveal_strlit("1");
        reveal_strlit("2");
        reveal_strlit("3");
        reveal_strlit("4");
        reveal_strlit("5");
        reveal_strlit("6");
        reveal_strlit("7");
        reveal_strlit("8");
        reveal_strlit("9");
    }
    let s = match d {
        0 => "0",
        1 => "1",
        2 => "2",
        3 => "3",
        4 => "4",
        5 => "5",
        6 => "6",
        7 => "7",
        8 => "8",
        _ => "9",
    };
    assert(s@ =~= seq![digit_char(d as nat)]);
    s
}

/// Appends `n` in decimal.
pub fn push_decimal(out: &mut String, n: u32)
    ensures
        final(out)@ == old(out)@ + decimal(n as nat),
    decreases n,
{
    if n >= 10 {
        push_decimal(out, n / 10);
    }
    let d: u8 = (n % 10) as u8;
    out.append(digit_str(d));
    assert(out@ =~= old(out)@ + decimal(n as nat));
}

/// A register operand: a space, `r` and the register's number.
pub open spec fn register_text(register: u8) -> Seq<char> {
    " r"@ + decimal(register as nat)
}

/// The word for a branch condition.
pub open spec fn condition_text(condition: Condition) -> Seq<char> {
    match condition {
        Condition::Zero => "zero"@,
        Condition::NotZero => "notzero"@,
        Condition::Carry => "carry"@,
        Condition::NotCarry => "notcarry"@,
    }
}

/// A location: an address in decimal, an offset with its sign (`+` where it
/// is not negative), or the label as it stands.
pub open spec fn location_text(location: Location) -> Seq<char> {
    match location {
        Location::Address(address) => decimal(address as nat),
        Location::Offset(offset) => if offset < 0 {
            signed_decimal(offset as int)
        } else {
            "+"@ + decimal(offset as nat)
        },
        Location::Label(label) => label@,
    }
}

/// The line of one instruction: its mnemonic, then its operands, each after
/// one space. The right shift is written `xor`, as the bitwise XOR is.
pub open spec fn line_text(instruction: Instruction) -> Seq<char> {
    match instruction {
        Instruction::NoOperation => "nop"@,
        Instruction::Halt => "hlt"@,
        Instruction::Addition(a, b, c) => "add"@ + register_text(a) + register_text(b)
            + register_text(c),
        Instruction::Subtraction(a, b, c) => "sub"@ + register_text(a) + register_text(b)
            + register_text(c),
        Instruction::BitwiseNOR(a, b, c) => "nor"@ + register_text(a) + register_text(b)
            + register_text(c),
        Instruction::BitwiseAND(a, b, c) => "and"@ + register_text(a) + register_text(b)
            + register_text(c),
        Instruction::BitwiseXOR(a, b, c) => "xor"@ + register_text(a) + register_text(b)
            + register_text(c),
        Instruction::RightShift(a, c) => "xor"@ + register_text(a) + register_text(c),
        Instruction::LoadImmediate(a, immediate) => "ldi"@ + register_text(a) + " "@ + decimal(
            immediate as nat,
        ),
        Instruction::AddImmediate(a, immediate) => "adi"@ + register_text(a) + " "@ + decimal(
            immediate as nat,
        ),
        Instruction::Jump(location) => "jmp "@ + location_text(location),
        Instruction::Branch(condition, location) => "brh "@ + condition_text(condition) + " "@
            + location_text(location),
        Instruction::Call(location) => "cal "@ + location_text(location),
        Instruction::Return => "ret"@,
        Instruction::MemoryLoad(a, b, offset) => "lod"@ + register_text(a) + register_text(b)
            + " "@ + signed_decimal(offset as int),
        Instruction::MemoryStore(a, b, offset) => "str"@ + register_text(a) + register_text(b)
            + " "@ + signed_decimal(offset as int),
    }
}

/// The lines of `instructions`, with one newline between each two and none
/// at the end.
pub open spec fn program_text(instructions: Seq<Instruction>) -> Seq<char>
    decreases instructions.len(),
{
    if instructions.len() == 0 {
        Seq::empty()
    } else if instructions.len() == 1 {
        line_text(instructions[0])
    } else {
        program_text(instructions.drop_last()) + "\n"@ + line_text(instructions.last())
    }
}

/// The text of what an array holds: nothing where it holds diagnostics.
pub open spec fn array_text(contents: Contents) -> Seq<char> {
    match contents {
        Contents::Instructions(instructions) => program_text(instructions),
        Contents::Errors(_) => Seq::empty(),
    }
}

/// Appends `i` in decimal, with a minus sign where it is negative.
pub fn push_signed_decimal(out: &mut String, i: i32)
    ensures
        final(out)@ == old(out)@ + signed_decimal(i as int),
{
    if i < 0 {
        out.append("-");
        let magnitude: u32 = (-(i as i64)) as u32;
        push_decimal(out, magnitude);
        proof {
            reveal_strlit("-");
            assert("-"@ =~= seq!['-']);
            assert(out@ =~= old(out)@ + signed_decimal(i as int));
        }
    } else {
        push_decimal(out, i as u32);
    }
}

fn push_register(out: &mut String, register: u8)
    ensures
        final(out)@ == old(out)@ + register_text(register),
{
    out.append(" r");
    push_decimal(out, register as u32);
    assert(out@ =~= old(out)@ + register_text(register));
}

fn push_registers(out: &mut String, a: u8, b: u8, c: u8)
    ensures
        final(out)@ == old(out)@ + register_text(a) + register_text(b) + register_text(c),
{
    push_register(out, a);
    push_register(out, b);
    push_register(out, c);
}

fn push_condition(out: &mut String, condition: Condition)
    ensures
        final(out)@ == old(out)@ + condition_text(condition),
{
    match condition {
        Condition::Zero => out.append("zero"),
        Condition::NotZero => out.append("notzero"),
        Condition::Carry => out.append("carry"),
        Condition::NotCarry => out.append("notcarry"),
    }
}

/// Appends the text of `location`.
pub fn push_location(out: &mut String, location: &Location)
    ensures
        final(out)@ == old(out)@ + location_text(*location),
{
    match location {
        Location::Address(address) => {
            push_decimal(out, *address as u32);
        },
        Location::Offset(offset) => {
            if *offset < 0 {
                push_signed_decimal(out, *offset);
            } else {
                out.append("+");
                push_decimal(out, *offset as u32);
                assert(out@ =~= old(out)@ + location_text(*location));
            }
        },
        Location::Label(label) => {
            out.append(label.as_str());
        },
    }
}

/// Appends the line of `instruction`.
pub fn push_line(out: &mut String, instruction: &Instruction)
    ensures
        final(out)@ == old(out)@ + line_text(*instruction),
{
    match instruction {
        Instruction::NoOperation => {
            out.append("nop");
        },
        Instruction::Halt => {
            out.append("hlt");
        },
        Instruction::Addition(a, b, c) => {
            out.append("add");
            push_registers(out, *a, *b, *c);
        },
        Instruction::Subtraction(a, b, c) => {
            out.append("sub");
            push_registers(out, *a, *b, *c);
        },
        Instruction::BitwiseNOR(a, b, c) => {
            out.append("nor");
            push_registers(out, *a, *b, *c);
        },
        Instruction::BitwiseAND(a, b, c) => {
            out.append("and");
            push_registers(out, *a, *b, *c);
        },
        Instruction::BitwiseXOR(a, b, c) => {
            out.append("xor");
            push_registers(out, *a, *b, *c);
        },
        Instruction::RightShift(a, c) => {
            out.append("xor");
            push_register(out, *a);
            push_register(out, *c);
        },
        Instruction::LoadImmediate(a, immediate) => {
            out.append("ldi");
            push_register(out, *a);
            out.append(" ");
            push_decimal(out, *immediate as u32);
        },
        Instruction::AddImmediate(a, immediate) => {
            out.append("adi");
            push_register(out, *a);
            out.append(" ");
            push_decimal(out, *immediate as u32);
        },
        Instruction::Jump(location) => {
            out.append("jmp ");
            push_location(out, location);
        },
        Instruction::Branch(condition, location) => {
            out.append("brh ");
            push_condition(out, *condition);
            out.append(" ");
            push_location(out, location);
        },
        Instruction::Call(location) => {
            out.append("cal ");
            push_location(out, location);
        },
        Instruction::Return => {
            out.append("ret");
        },
        Instruction::MemoryLoad(a, b, offset) => {
            out.append("lod");
            push_register(out, *a);
            push_register(out, *b);
            out.append(" ");
            push_signed_decimal(out, *offset as i32);
        },
        Instruction::MemoryStore(a, b, offset) => {
            out.append("str");
            push_register(out, *a);
            push_register(out, *b);
            out.append(" ");
            push_signed_decimal(out, *offset as i32);
        },
    }
    assert(out@ =~= old(out)@ + line_text(*instruction));
}

/// The mnemonic text of the instructions in `array`, one line each, joined
/// by single newlines. An array of diagnostics gives the empty text.
pub fn instructions_to_text(array: &InstructionArray) -> (text: String)
    ensures
        text@ == array_text(array@),
{
    let mut text = String::new();
    match array.instructions() {
        None => {},
        Some(instructions) => {
            let mut i: usize = 0;
            while i < instructions.len()
                invariant
                    i <= instructions.len(),
                    text@ == program_text(instructions@.subrange(0, i as int)),
                decreases instructions.len() - i,
            {
                let ghost before = text@;
                if i > 0 {
                    text.append("\n");
                }
                push_line(&mut text, &instructions[i]);
                proof {
                    let done = instructions@.subrange(0, i as int);
                    let next = instructions@.subrange(0, i + 1);
                    assert(next.drop_last() =~= done);
                    assert(next.last() == instructions@[i as int]);
                    if i == 0 {
                        assert(before =~= Seq::<char>::empty());
                        assert(next[0] == instructions@[0]);
                        assert(text@ =~= line_text(instructions@[0]));
                    }
                }
                i += 1;
            }
            assert(instructions@.subrange(0, i as int) =~= instructions@);
        },
    }
    text
}

} // verus!
