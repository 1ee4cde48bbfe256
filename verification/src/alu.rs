//! Arithmetic on stack words: what each arithmetic instruction computes from
//! its operands, and on which operands it cannot.

use crate::instruction::{Fault, Instruction};
use vstd::prelude::*;

verus! {

/// `a` divided by `b`, rounded toward zero.
pub open spec fn quotient(a: int, b: int) -> int
    recommends
        b != 0,
{
    if a >= 0 {
        if b > 0 {
            a / b
        } else {
            -(a / (-b))
        }
    } else {
        if b > 0 {
            -((-a) / b)
        } else {
            (-a) / (-b)
        }
    }
}

/// What is left of `a` after division by `b`, rounded toward zero: it has the
/// sign of `a`.
pub open spec fn remainder(a: int, b: int) -> int
    recommends
        b != 0,
{
    let size = if b > 0 {
        b
    } else {
        -b
    };
    if a >= 0 {
        a % size
    } else {
        -((-a) % size)
    }
}

/// Whether a 32-bit signed number holds `v`.
pub open spec fn fits(v: int) -> bool {
    i32::MIN <= v <= i32::MAX
}

/// `v` where it fits, an overflow where it does not.
pub open spec fn checked(v: int) -> Result<i32, Fault> {
    if fits(v) {
        Ok(v as i32)
    } else {
        Err(Fault::ArithmeticOverflow)
    }
}

/// Whether a word can be shifted by `amount`.
pub open spec fn shift_in_range(amount: i32) -> bool {
    0 <= amount < 32
}

/// The value where there is one, an overflow where there is none.
fn overflow_unless(value: Option<i32>) -> (r: Result<i32, Fault>)
    ensures
        r == match value {
            Some(v) => Ok::<i32, Fault>(v),
            None => Err(Fault::ArithmeticOverflow),
        },
{
    match value {
        Some(v) => Ok(v),
        None => Err(Fault::ArithmeticOverflow),
    }
}

/// The quotient of `left` by `right`, or why there is none.
fn divide(left: i32, right: i32) -> (r: Result<i32, Fault>)
    ensures
        r == Instruction::Div.binary_result(left, right),
{
    if right == 0 {
        Err(Fault::DivisionByZero)
    } else {
        overflow_unless(left.checked_div(right))
    }
}

/// What is left of `left` after division by `right`, or why there is
/// nothing.
fn divide_for_rest(left: i32, right: i32) -> (r: Result<i32, Fault>)
    ensures
        r == Instruction::Rem.binary_result(left, right),
{
    if right == 0 {
        Err(Fault::DivisionByZero)
    } else {
        overflow_unless(left.checked_rem(right))
    }
}

impl Instruction {
    /// Whether the instruction takes two operands from the stack and leaves
    /// one result.
    pub open spec fn is_binary(self) -> bool {
        match self {
            Instruction::Add
            | Instruction::Sub
            | Instruction::Mul
            | Instruction::Div
            | Instruction::Rem
            | Instruction::And
            | Instruction::Or
            | Instruction::Xor
            | Instruction::Lsl
            | Instruction::Lsr
            | Instruction::Asr => true,
            _ => false,
        }
    }

    /// Whether the instruction takes one operand from the stack and leaves
    /// one result.
    pub open spec fn is_unary(self) -> bool {
        self is Neg || self is Not
    }

    /// What a binary instruction computes from `left` and `right`, or why it
    /// cannot. The shifts to the right keep the sign; `Asr` sets bit 28 of
    /// its result where bit 27 of `left` is set.
    pub open spec fn binary_result(self, left: i32, right: i32) -> Result<i32, Fault>
        recommends
            self.is_binary(),
    {
        match self {
            Instruction::Add => checked(left + right),
            Instruction::Sub => checked(left - right),
            Instruction::Mul => checked(left * right),
            Instruction::Div => if right == 0 {
                Err(Fault::DivisionByZero)
            } else {
                checked(quotient(left as int, right as int))
            },
            Instruction::Rem => if right == 0 {
                Err(Fault::DivisionByZero)
            } else if left == i32::MIN && right == -1 {
                Err(Fault::ArithmeticOverflow)
            } else {
                Ok(remainder(left as int, right as int) as i32)
            },
            Instruction::And => Ok(left & right),
            Instruction::Or => Ok(left | right),
            Instruction::Xor => Ok(left ^ right),
            Instruction::Lsl => if shift_in_range(right) {
                Ok(left << (right as u32))
            } else {
                Err(Fault::ShiftOutOfRange)
            },
            Instruction::Lsr => if shift_in_range(right) {
                Ok(left >> (right as u32))
            } else {
                Err(Fault::ShiftOutOfRange)
            },
            Instruction::Asr => if shift_in_range(right) {
                if left & 0x800_0000 == 0 {
                    Ok(left >> (right as u32))
                } else {
                    Ok((left >> (right as u32)) | 0x1000_0000)
                }
            } else {
                Err(Fault::ShiftOutOfRange)
            },
            _ => Ok(0),
        }
    }

    /// What a unary instruction computes from `value`, or why it cannot.
    pub open spec fn unary_result(self, value: i32) -> Result<i32, Fault>
        recommends
            self.is_unary(),
    {
        match self {
            Instruction::Neg => checked(-value),
            Instruction::Not => Ok(!value),
            _ => Ok(0),
        }
    }

    /// Computes a binary instruction on `left` and `right`; for any other
    /// instruction the result is 0.
    pub fn compute_binary(&self, left: i32, right: i32) -> (r: Result<i32, Fault>)
        ensures
            r == self.binary_result(left, right),
    {
        match self {
            Instruction::Add => overflow_unless(left.checked_add(right)),
            Instruction::Sub => overflow_unless(left.checked_sub(right)),
            Instruction::Mul => overflow_unless(left.checked_mul(right)),
            Instruction::Div => divide(left, right),
            Instruction::Rem => divide_for_rest(left, right),
            Instruction::And => Ok(left & right),
            Instruction::Or => Ok(left | right),
            Instruction::Xor => Ok(left ^ right),
            Instruction::Lsl => if 0 <= right && right < 32 {
                Ok(left << (right as u32))
            } else {
                Err(Fault::ShiftOutOfRange)
            },
            Instruction::Lsr => if 0 <= right && right < 32 {
                Ok(left >> (right as u32))
            } else {
                Err(Fault::ShiftOutOfRange)
            },
            Instruction::Asr => if 0 <= right && right < 32 {
                if left & 0x800_0000 == 0 {
                    Ok(left >> (right as u32))
                } else {
                    Ok((left >> (right as u32)) | 0x1000_0000)
                }
            } else {
                Err(Fault::ShiftOutOfRange)
            },
            _ => Ok(0),
        }
    }

    /// Computes a unary instruction on `value`; for any other instruction
    /// the result is 0.
    pub fn compute_unary(&self, value: i32) -> (r: Result<i32, Fault>)
        ensures
            r == self.unary_result(value),
    {
        match self {
            Instruction::Neg => if value == i32::MIN {
                Err(Fault::ArithmeticOverflow)
            } else {
                Ok(-value)
            },
            Instruction::Not => Ok(!value),
            _ => Ok(0),
        }
    }
}

} // verus!
