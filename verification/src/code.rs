//! Bytecode: op codes, their operands and the program that a compiler hands over.

use std::rc::Rc;

use vstd::prelude::*;

use crate::object::Object;

verus! {

/// A sequence of encoded instructions. Each is an op code byte followed by its operand.
pub type Instructions = Vec<u8>;

/// What a compiler produces: the instructions of the main program and its constant pool.
#[derive(Debug)]
pub struct Bytecode {
    pub instructions: Instructions,
    pub constants: Vec<Rc<Object>>,
}

/// The operations of the machine.
#[derive(Clone, Copy, Debug, PartialEq, Eq, Structural)]
pub enum OpCode {
    Constant,
    Pop,
    Add,
    Sub,
    Mul,
    Div,
    True,
    False,
    Equal,
    NotEqual,
    GreaterThan,
    Minus,
    Bang,
    JumpIfNotTruthy,
    Jump,
    Null,
    GetGlobal,
    SetGlobal,
    Array,
    Hash,
    Index,
    Call,
    ReturnValue,
    Return,
    GetLocal,
    SetLocal,
}

impl OpCode {
    /// The byte that encodes an op code.
    pub open spec fn spec_to_byte(self) -> u8 {
        match self {
            OpCode::Constant => 0u8,
            OpCode::Pop => 1u8,
            OpCode::Add => 2u8,
            OpCode::Sub => 3u8,
            OpCode::Mul => 4u8,
            OpCode::Div => 5u8,
            OpCode::True => 6u8,
            OpCode::False => 7u8,
            OpCode::Equal => 8u8,
            OpCode::NotEqual => 9u8,
            OpCode::GreaterThan => 10u8,
            OpCode::Minus => 11u8,
            OpCode::Bang => 12u8,
            OpCode::JumpIfNotTruthy => 13u8,
            OpCode::Jump => 14u8,
            OpCode::Null => 15u8,
            OpCode::GetGlobal => 16u8,
            OpCode::SetGlobal => 17u8,
            OpCode::Array => 18u8,
            OpCode::Hash => 19u8,
            OpCode::Index => 20u8,
            OpCode::Call => 21u8,
            OpCode::ReturnValue => 22u8,
            OpCode::Return => 23u8,
            OpCode::GetLocal => 24u8,
            OpCode::SetLocal => 25u8,
        }
    }

    /// The op code that a byte stands for, if any.
    pub open spec fn spec_from_byte(byte: u8) -> Option<OpCode> {
        match byte {
            0u8 => Some(OpCode::Constant),
            1u8 => Some(OpCode::Pop),
            2u8 => Some(OpCode::Add),
            3u8 => Some(OpCode::Sub),
            4u8 => Some(OpCode::Mul),
            5u8 => Some(OpCode::Div),
            6u8 => Some(OpCode::True),
            7u8 => Some(OpCode::False),
            8u8 => Some(OpCode::Equal),
            9u8 => Some(OpCode::NotEqual),
            10u8 => Some(OpCode::GreaterThan),
            11u8 => Some(OpCode::Minus),
            12u8 => Some(OpCode::Bang),
            13u8 => Some(OpCode::JumpIfNotTruthy),
            14u8 => Some(OpCode::Jump),
            15u8 => Some(OpCode::Null),
            16u8 => Some(OpCode::GetGlobal),
            17u8 => Some(OpCode::SetGlobal),
            18u8 => Some(OpCode::Array),
            19u8 => Some(OpCode::Hash),
            20u8 => Some(OpCode::Index),
            21u8 => Some(OpCode::Call),
            22u8 => Some(OpCode::ReturnValue),
            23u8 => Some(OpCode::Return),
            24u8 => Some(OpCode::GetLocal),
            25u8 => Some(OpCode::SetLocal),
            _ => None,
        }
    }

    /// The number of operand bytes that follow the op code byte.
    pub open spec fn operand_width(self) -> nat {
        match self {
            OpCode::Constant
            | OpCode::JumpIfNotTruthy
            | OpCode::Jump
            | OpCode::GetGlobal
            | OpCode::SetGlobal
            | OpCode::Array
            | OpCode::Hash => 2,
            OpCode::GetLocal | OpCode::SetLocal => 1,
            _ => 0,
        }
    }

    /// Encodes the op code.
    pub fn to_byte(self) -> (byte: u8)
        ensures
            byte == self.spec_to_byte(),
    {
        match self {
            OpCode::Constant => 0,
            OpCode::Pop => 1,
            OpCode::Add => 2,
            OpCode::Sub => 3,
            OpCode::Mul => 4,
            OpCode::Div => 5,
            OpCode::True => 6,
            OpCode::False => 7,
            OpCode::Equal => 8,
            OpCode::NotEqual => 9,
            OpCode::GreaterThan => 10,
            OpCode::Minus => 11,
            OpCode::Bang => 12,
            OpCode::JumpIfNotTruthy => 13,
            OpCode::Jump => 14,
            OpCode::Null => 15,
            OpCode::GetGlobal => 16,
            OpCode::SetGlobal => 17,
            OpCode::Array => 18,
            OpCode::Hash => 19,
            OpCode::Index => 20,
            OpCode::Call => 21,
            OpCode::ReturnValue => 22,
            OpCode::Return => 23,
            OpCode::GetLocal => 24,
            OpCode::SetLocal => 25,
        }
    }

    /// Decodes an op code; a byte that stands for none gives `None`.
    pub fn from_byte(byte: u8) -> (op_code: Option<OpCode>)
        ensures
            op_code == OpCode::spec_from_byte(byte),
    {
        match byte {
            0 => Some(OpCode::Constant),
            1 => Some(OpCode::Pop),
            2 => Some(OpCode::Add),
            3 => Some(OpCode::Sub),
            4 => Some(OpCode::Mul),
            5 => Some(OpCode::Div),
            6 => Some(OpCode::True),
            7 => Some(OpCode::False),
            8 => Some(OpCode::Equal),
            9 => Some(OpCode::NotEqual),
            10 => Some(OpCode::GreaterThan),
            11 => Some(OpCode::Minus),
            12 => Some(OpCode::Bang),
            13 => Some(OpCode::JumpIfNotTruthy),
            14 => Some(OpCode::Jump),
            15 => Some(OpCode::Null),
            16 => Some(OpCode::GetGlobal),
            17 => Some(OpCode::SetGlobal),
            18 => Some(OpCode::Array),
            19 => Some(OpCode::Hash),
            20 => Some(OpCode::Index),
            21 => Some(OpCode::Call),
            22 => Some(OpCode::ReturnValue),
            23 => Some(OpCode::Return),
            24 => Some(OpCode::GetLocal),
            25 => Some(OpCode::SetLocal),
            _ => None,
        }
    }
}

/// Decoding undoes encoding, and a byte that decodes is the encoding of what it decodes to.
pub proof fn lemma_op_code_byte_round_trip(op_code: OpCode, byte: u8)
    ensures
        OpCode::spec_from_byte(op_code.spec_to_byte()) == Some(op_code),
        OpCode::spec_from_byte(byte) matches Some(decoded) ==> decoded.spec_to_byte() == byte,
{
}

/// The big-endian number in the two bytes at `index`.
pub open spec fn uint16_at(instructions: Seq<u8>, index: int) -> nat {
    (instructions[index] * 256 + instructions[index + 1]) as nat
}

/// The two bytes of an operand are the number of whole 256s in it and what is left over.
pub proof fn lemma_uint16_bytes(instructions: Seq<u8>, index: int)
    ensures
        uint16_at(instructions, index) <= u16::MAX,
        uint16_at(instructions, index) / 256 == instructions[index],
        uint16_at(instructions, index) % 256 == instructions[index + 1],
{
}

/// Reads the big-endian two-byte operand at `index`.
pub fn read_uint16(instructions: &Instructions, index: usize) -> (operand: u16)
    requires
        index + 1 < instructions@.len(),
    ensures
        operand == uint16_at(instructions@, index as int),
{
    assert(instructions.len() == instructions@.len());
    let high: u16 = instructions[index] as u16;
    let low: u16 = instructions[index + 1] as u16;
    high * 256 + low
}

} // verus!
