//! The instruction set as plain data.

use vstd::prelude::*;

verus! {

/// The flag test of a conditional branch.
#[derive(Clone, Copy, Debug, PartialEq, Eq, Structural)]
pub enum Condition {
    Zero,
    NotZero,
    Carry,
    NotCarry,
}

/// Where a jump, branch or call goes.
#[derive(Debug, PartialEq, Eq)]
pub enum Location {
    /// An absolute address.
    Address(u16),
    /// A distance from the instruction's own address.
    Offset(i32),
    /// A label that the assembler resolves.
    Label(String),
}

/// One instruction. Register operands are register numbers; where an
/// instruction writes a register, that register comes last.
#[derive(Debug, PartialEq, Eq)]
pub enum Instruction {
    NoOperation,
    Halt,
    Addition(u8, u8, u8),
    Subtraction(u8, u8, u8),
    BitwiseNOR(u8, u8, u8),
    BitwiseAND(u8, u8, u8),
    BitwiseXOR(u8, u8, u8),
    RightShift(u8, u8),
    LoadImmediate(u8, u8),
    AddImmediate(u8, u8),
    Jump(Location),
    Branch(Condition, Location),
    Call(Location),
    Return,
    MemoryLoad(u8, u8, i8),
    MemoryStore(u8, u8, i8),
}

impl Clone for Location {
    fn clone(&self) -> (copy: Self)
        ensures
            copy == *self,
    {
        match self {
            Location::Address(address) => Location::Address(*address),
            Location::Offset(offset) => Location::Offset(*offset),
            Location::Label(label) => Location::Label(label.clone()),
        }
    }
}

impl Clone for Instruction {
    fn clone(&self) -> (copy: Self)
        ensures
            copy == *self,
    {
        match self {
            Instruction::NoOperation => Instruction::NoOperation,
            Instruction::Halt => Instruction::Halt,
            Instruction::Addition(a, b, c) => Instruction::Addition(*a, *b, *c),
            Instruction::Subtraction(a, b, c) => Instruction::Subtraction(*a, *b, *c),
            Instruction::BitwiseNOR(a, b, c) => Instruction::BitwiseNOR(*a, *b, *c),
            Instruction::BitwiseAND(a, b, c) => Instruction::BitwiseAND(*a, *b, *c),
            Instruction::BitwiseXOR(a, b, c) => Instruction::BitwiseXOR(*a, *b, *c),
            Instruction::RightShift(a, c) => Instruction::RightShift(*a, *c),
            Instruction::LoadImmediate(a, immediate) => Instruction::LoadImmediate(
                *a,
                *immediate,
            ),
            Instruction::AddImmediate(a, immediate) => Instruction::AddImmediate(*a, *immediate),
            Instruction::Jump(location) => Instruction::Jump(location.clone()),
            Instruction::Branch(condition, location) => Instruction::Branch(
                *condition,
                location.clone(),
            ),
            Instruction::Call(location) => Instruction::Call(location.clone()),
            Instruction::Return => Instruction::Return,
            Instruction::MemoryLoad(a, b, offset) => Instruction::MemoryLoad(*a, *b, *offset),
            Instruction::MemoryStore(a, b, offset) => Instruction::MemoryStore(*a, *b, *offset),
        }
    }
}

} // verus!
