//! The instruction set: how a word decodes, and what each instruction
//! computes.

use crate::word::{
    aligned_field, le_value, relative_offset, sign_extend, signed_field, signed_from, word_from_bytes,
};
use vstd::arithmetic::power2::lemma2_to64;
use vstd::prelude::*;

verus! {

/// One decoded instruction. `Swap`, `StInput`, `StPrint`, `Call`, `Return`,
/// `Goto`, `BinaryIf` and `UnaryIf` carry the four bytes of their word; the
/// others carry their fields, or nothing. `Pop` carries a number of bytes,
/// `Dup` and `Print` a signed displacement from the stack pointer, `Print`
/// also its format, and `Push` the low 28 bits of its word, whose sign the
/// push itself extends.
#[derive(Clone, Copy, Debug, PartialEq, Eq)]
pub enum Instruction {
    Exit,
    Swap([u8; 4]),
    Nop,
    Input,
    StInput([u8; 4]),
    Debug,
    Pop(u32),
    Add,
    Sub,
    Mul,
    Div,
    Rem,
    And,
    Or,
    Xor,
    Lsl,
    Lsr,
    Asr,
    Neg,
    Not,
    StPrint([u8; 4]),
    Call([u8; 4]),
    Return([u8; 4]),
    Goto([u8; 4]),
    BinaryIf([u8; 4]),
    UnaryIf([u8; 4]),
    Dup(i32),
    Print(i32, u8),
    Dump,
    Push(Option<i32>),
}

/// Why an instruction cannot be carried out.
#[derive(Clone, Copy, Debug, PartialEq, Eq)]
pub enum Fault {
    /// A push found no room below the stack pointer.
    StackOverflow,
    /// A pop found no whole word at the stack pointer.
    StackUnderflow,
    /// A division or a remainder by 0.
    DivisionByZero,
    /// A result that no 32-bit signed number holds.
    ArithmeticOverflow,
    /// A shift by less than 0 or by 32 or more.
    ShiftOutOfRange,
    /// A byte outside memory, or a character outside the line.
    AddressOutOfRange,
}

/// The unsigned value of the low 28 bits of a word.
pub open spec fn low_28(bytes: Seq<u8>) -> int
    recommends
        bytes.len() >= 4,
{
    le_value(bytes[0], bytes[1], bytes[2], (bytes[3] % 16) as u8)
}

/// The miscellaneous instruction that a low nibble selects.
pub open spec fn decode_misc(operation: u8, word: [u8; 4]) -> Option<Instruction> {
    if operation == 0x0 {
        Some(Instruction::Exit)
    } else if operation == 0x1 {
        Some(Instruction::Swap(word))
    } else if operation == 0x2 {
        Some(Instruction::Nop)
    } else if operation == 0x4 {
        Some(Instruction::Input)
    } else if operation == 0x5 {
        Some(Instruction::StInput(word))
    } else if operation == 0xF {
        Some(Instruction::Debug)
    } else {
        None
    }
}

/// The binary arithmetic instruction that a low nibble selects.
pub open spec fn decode_binary(operation: u8) -> Option<Instruction> {
    if operation == 0x0 {
        Some(Instruction::Add)
    } else if operation == 0x1 {
        Some(Instruction::Sub)
    } else if operation == 0x2 {
        Some(Instruction::Mul)
    } else if operation == 0x3 {
        Some(Instruction::Div)
    } else if operation == 0x4 {
        Some(Instruction::Rem)
    } else if operation == 0x5 {
        Some(Instruction::And)
    } else if operation == 0x6 {
        Some(Instruction::Or)
    } else if operation == 0x7 {
        Some(Instruction::Xor)
    } else if operation == 0x8 {
        Some(Instruction::Lsl)
    } else if operation == 0x9 {
        Some(Instruction::Lsr)
    } else if operation == 0xB {
        Some(Instruction::Asr)
    } else {
        None
    }
}

/// The unary arithmetic instruction that a low nibble selects.
pub open spec fn decode_unary(operation: u8) -> Option<Instruction> {
    if operation == 0x0 {
        Some(Instruction::Neg)
    } else if operation == 0x1 {
        Some(Instruction::Not)
    } else {
        None
    }
}

/// The displacement of a `Dup`: the low 28 bits of the word, signed from bit
/// 27.
pub open spec fn dup_offset(bytes: Seq<u8>) -> i32
    recommends
        bytes.len() >= 4,
{
    signed_field(low_28(bytes) as u32, 28) as i32
}

/// The displacement of a `Print`: the low 28 bits of the word without the two
/// lowest, which are the format, signed from bit 27.
pub open spec fn print_offset(bytes: Seq<u8>) -> i32
    recommends
        bytes.len() >= 4,
{
    aligned_field(low_28(bytes) as u32, 28) as i32
}

/// The format of a `Print`: the two lowest bits of the word.
pub open spec fn print_format(bytes: Seq<u8>) -> u8
    recommends
        bytes.len() >= 4,
{
    (bytes[0] % 4) as u8
}

/// The instruction that the first four of `bytes` encode: the high nibble of
/// the fourth byte is the opcode, its low nibble selects among the
/// miscellaneous and the arithmetic instructions.
pub open spec fn decode(bytes: Seq<u8>) -> Option<Instruction> {
    if bytes.len() < 4 {
        None
    } else {
        let word = [bytes[0], bytes[1], bytes[2], bytes[3]];
        let opcode = bytes[3] / 16;
        let operation = bytes[3] % 16;
        if opcode == 0x0 {
            decode_misc(operation, word)
        } else if opcode == 0x1 {
            Some(Instruction::Pop(low_28(bytes) as u32))
        } else if opcode == 0x2 {
            decode_binary(operation)
        } else if opcode == 0x3 {
            decode_unary(operation)
        } else if opcode == 0x4 {
            Some(Instruction::StPrint(word))
        } else if opcode == 0x5 {
            Some(Instruction::Call(word))
        } else if opcode == 0x6 {
            Some(Instruction::Return(word))
        } else if opcode == 0x7 {
            Some(Instruction::Goto(word))
        } else if opcode == 0x8 {
            Some(Instruction::BinaryIf(word))
        } else if opcode == 0x9 {
            Some(Instruction::UnaryIf(word))
        } else if opcode == 0xC {
            Some(Instruction::Dup(dup_offset(bytes)))
        } else if opcode == 0xD {
            Some(Instruction::Print(print_offset(bytes), print_format(bytes)))
        } else if opcode == 0xE {
            Some(Instruction::Dump)
        } else if opcode == 0xF {
            Some(Instruction::Push(Some(low_28(bytes) as i32)))
        } else {
            None
        }
    }
}

/// The displacements of `Dup` and `Print` in plain numbers: a field under
/// 2^27 stands for itself, one from 2^27 on for itself less 2^28, so both lie
/// within 2^27 of 0.
pub proof fn lemma_decoded_displacements(bytes: Seq<u8>)
    requires
        bytes.len() >= 4,
    ensures
        dup_offset(bytes) == signed_from(low_28(bytes), 0x800_0000),
        print_offset(bytes) == signed_from(low_28(bytes) - bytes[0] % 4, 0x800_0000),
        -0x800_0000 <= dup_offset(bytes) < 0x800_0000,
        -0x800_0000 <= print_offset(bytes) < 0x800_0000,
        print_offset(bytes) % 4 == 0,
{
    lemma2_to64();
}

impl Instruction {
    /// Decodes the first four of `bytes`; `None` where there are fewer, or
    /// where they encode no instruction. The displacements of `Dup` and
    /// `Print` are signed from bit 27 of the word.
    pub fn decode_instruction(bytes: &[u8]) -> (r: Option<Instruction>)
        ensures
            r == decode(bytes@),
            bytes@.len() >= 4 ==> dup_offset(bytes@) == signed_from(low_28(bytes@), 0x800_0000),
            bytes@.len() >= 4 ==> print_offset(bytes@) == signed_from(
                low_28(bytes@) - bytes@[0] % 4,
                0x800_0000,
            ),
    {
        if bytes.len() < 4 {
            return None;
        }
        proof {
            lemma_decoded_displacements(bytes@);
        }
        let b3: u8 = bytes[3];
        let opcode: u8 = b3 >> 4;
        let operation: u8 = b3 & 0x0F;
        assert(b3 >> 4 == b3 / 16 && b3 & 0x0F == b3 % 16) by (bit_vector);
        let word: [u8; 4] = [bytes[0], bytes[1], bytes[2], bytes[3]];
        let low: u32 = word_from_bytes(bytes[0], bytes[1], bytes[2], operation);
        match opcode {
            0x0 => match operation {
                0x0 => Some(Instruction::Exit),
                0x1 => Some(Instruction::Swap(word)),
                0x2 => Some(Instruction::Nop),
                0x4 => Some(Instruction::Input),
                0x5 => Some(Instruction::StInput(word)),
                0xF => Some(Instruction::Debug),
                _ => None,
            },
            0x1 => Some(Instruction::Pop(low)),
            0x2 => match operation {
                0x0 => Some(Instruction::Add),
                0x1 => Some(Instruction::Sub),
                0x2 => Some(Instruction::Mul),
                0x3 => Some(Instruction::Div),
                0x4 => Some(Instruction::Rem),
                0x5 => Some(Instruction::And),
                0x6 => Some(Instruction::Or),
                0x7 => Some(Instruction::Xor),
                0x8 => Some(Instruction::Lsl),
                0x9 => Some(Instruction::Lsr),
                0xB => Some(Instruction::Asr),
                _ => None,
            },
            0x3 => match operation {
                0x0 => Some(Instruction::Neg),
                0x1 => Some(Instruction::Not),
                _ => None,
            },
            0x4 => Some(Instruction::StPrint(word)),
            0x5 => Some(Instruction::Call(word)),
            0x6 => Some(Instruction::Return(word)),
            0x7 => Some(Instruction::Goto(word)),
            0x8 => Some(Instruction::BinaryIf(word)),
            0x9 => Some(Instruction::UnaryIf(word)),
            0xC => Some(Instruction::Dup(sign_extend(low, 28))),
            0xD => {
                let format: u8 = bytes[0] & 0b11;
                let b0: u8 = bytes[0];
                assert(b0 & 0b11 == b0 % 4) by (bit_vector);
                Some(Instruction::Print(relative_offset(low, 28), format))
            },
            0xE => Some(Instruction::Dump),
            0xF => Some(Instruction::Push(Some(low as i32))),
            _ => None,
        }
    }
}

} // verus!
