//! The instruction decoder: one byte to one operation tag.

use vstd::prelude::*;
use vstd::std_specs::convert::FromSpecImpl;

verus! {

/// The operations of the machine, and `Illegal` for every byte that names
/// none of them.
#[derive(Debug, Clone, Copy, PartialEq, Eq, Structural)]
pub enum OpCode {
    Halt,
    Load,
    Add,
    Sub,
    Mul,
    Div,
    Eq,
    Neq,
    Jmp,
    JmpF,
    JmpB,
    Gt,
    Gte,
    Lt,
    Lte,
    Illegal,
}

/// The operation that a byte encodes: 0 to 14 are the fifteen operations in
/// the order of their declaration, every other byte is `Illegal`.
pub open spec fn decode(v: u8) -> OpCode {
    match v {
        0 => OpCode::Halt,
        1 => OpCode::Load,
        2 => OpCode::Add,
        3 => OpCode::Sub,
        4 => OpCode::Mul,
        5 => OpCode::Div,
        6 => OpCode::Eq,
        7 => OpCode::Neq,
        8 => OpCode::Jmp,
        9 => OpCode::JmpF,
        10 => OpCode::JmpB,
        11 => OpCode::Gt,
        12 => OpCode::Gte,
        13 => OpCode::Lt,
        14 => OpCode::Lte,
        _ => OpCode::Illegal,
    }
}

impl OpCode {
    /// How many operand bytes follow the opcode byte in the instruction
    /// stream. A comparison reads two register indices and a jump one; the
    /// filler bytes with which hand-assembled programs pad them to four
    /// bytes are not part of the instruction.
    pub open spec fn operand_width(self) -> nat {
        match self {
            OpCode::Halt | OpCode::Illegal => 0,
            OpCode::Load | OpCode::Add | OpCode::Sub | OpCode::Mul | OpCode::Div => 3,
            OpCode::Eq | OpCode::Neq | OpCode::Gt | OpCode::Gte | OpCode::Lt | OpCode::Lte => 2,
            OpCode::Jmp | OpCode::JmpF | OpCode::JmpB => 1,
        }
    }

    /// The number of operand bytes that follow this opcode.
    pub fn operands(&self) -> (width: usize)
        ensures
            width == self.operand_width(),
    {
        match self {
            OpCode::Halt | OpCode::Illegal => 0,
            OpCode::Load | OpCode::Add | OpCode::Sub | OpCode::Mul | OpCode::Div => 3,
            OpCode::Eq | OpCode::Neq | OpCode::Gt | OpCode::Gte | OpCode::Lt | OpCode::Lte => 2,
            OpCode::Jmp | OpCode::JmpF | OpCode::JmpB => 1,
        }
    }
}

impl From<u8> for OpCode {
    fn from(v: u8) -> (op: Self) {
        match v {
            0 => OpCode::Halt,
            1 => OpCode::Load,
            2 => OpCode::Add,
            3 => OpCode::Sub,
            4 => OpCode::Mul,
            5 => OpCode::Div,
            6 => OpCode::Eq,
            7 => OpCode::Neq,
            8 => OpCode::Jmp,
            9 => OpCode::JmpF,
            10 => OpCode::JmpB,
            11 => OpCode::Gt,
            12 => OpCode::Gte,
            13 => OpCode::Lt,
            14 => OpCode::Lte,
            _ => OpCode::Illegal,
        }
    }
}

impl FromSpecImpl<u8> for OpCode {
    open spec fn obeys_from_spec() -> bool {
        true
    }

    open spec fn from_spec(v: u8) -> Self {
        decode(v)
    }
}

/// Decoding never fails, and it yields `Illegal` exactly on the bytes above 14.
pub proof fn decode_is_illegal_above_fourteen(v: u8)
    ensures
        decode(v) == OpCode::Illegal <==> v > 14,
{
}

/// One decoded instruction: its operation tag.
#[derive(Debug, PartialEq, Eq, Structural)]
pub struct Instruction {
    opcode: OpCode,
}

impl Instruction {
    /// The operation that this instruction performs.
    pub closed spec fn operation(&self) -> OpCode {
        self.opcode
    }

    /// The instruction that performs `opcode`.
    pub fn new(opcode: OpCode) -> (instruction: Instruction)
        ensures
            instruction.operation() == opcode,
    {
        Instruction { opcode }
    }

    /// The operation that this instruction performs.
    pub fn opcode(&self) -> (op: OpCode)
        ensures
            op == self.operation(),
    {
        self.opcode
    }
}

/// An instruction is its operation and nothing more: two instructions that
/// perform the same operation are the same instruction. With the contract of
/// [`Instruction::new`], two instructions made from opcodes `a` and `b` are
/// equal exactly when `a == b`.
pub proof fn operation_determines_instruction(a: Instruction, b: Instruction)
    requires
        a.operation() == b.operation(),
    ensures
        a == b,
{
}

} // verus!
