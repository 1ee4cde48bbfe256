//! What each instruction does to a machine, as mathematics: the fields of its
//! word, the state it leaves, the text it writes, and the states in which it
//! cannot be carried out.

use crate::instruction::{Fault, Instruction};
use crate::machine::{MachineState, MEMORY_SIZE};
use crate::text::{decimal, digits, padded_digits, parse_line, trim};
use crate::word::{aligned_field, le_value, signed_field, to_signed, to_unsigned};
use vstd::prelude::*;

verus! {

/// The unsigned value of an instruction's word.
pub open spec fn payload(word: [u8; 4]) -> u32 {
    le_value(word[0], word[1], word[2], word[3]) as u32
}

/// The displacement in the low 28 bits of a word: signed from bit 27, a
/// multiple of 4.
pub open spec fn offset_28(word: [u8; 4]) -> int {
    aligned_field(payload(word), 28)
}

/// The displacement in the low 24 bits of a word: signed from bit 23, a
/// multiple of 4.
pub open spec fn offset_24(word: [u8; 4]) -> int {
    aligned_field(payload(word), 24)
}

/// The condition code of a conditional branch: the bits above the lowest of
/// the word's fourth byte, `count` codes in all.
pub open spec fn condition_code(word: [u8; 4], count: int) -> int {
    word[3] as int / 2 % count
}

/// The first displacement of a swap: bits 12 to 23 of the word, signed from
/// bit 11, counted in words.
pub open spec fn swap_source(word: [u8; 4]) -> int {
    4 * signed_field((payload(word) / 0x1000) as u32, 12)
}

/// The second displacement of a swap: bits 0 to 11 of the word, signed from
/// bit 11, counted in words.
pub open spec fn swap_target(word: [u8; 4]) -> int {
    4 * signed_field(payload(word), 12)
}

/// The number of characters that a string input takes at most: the low 24
/// bits of the word.
pub open spec fn window(word: [u8; 4]) -> nat {
    (payload(word) % 0x100_0000) as nat
}

/// The address that a target becomes: the target itself where it is an
/// address, and the one that is as far from the other end of the address
/// range where it lies beyond one end of it.
pub open spec fn wrap_address(target: int) -> int {
    if target < 0 {
        target + usize::MAX + 1
    } else if target > usize::MAX {
        target - usize::MAX - 1
    } else {
        target
    }
}

/// The return address that a call at `pc` pushes: the address of the next
/// word, in its low 32 bits.
pub open spec fn return_address(pc: int) -> i32 {
    to_signed(((pc + 4) % 0x1_0000_0000) as u32)
}

/// Whether a branch on two words is taken.
pub open spec fn binary_condition(code: int, left: i32, right: i32) -> bool {
    ||| code == 0 && left == right
    ||| code == 1 && left != right
    ||| code == 2 && left < right
    ||| code == 3 && left > right
    ||| code == 4 && left <= right
    ||| code == 5 && left >= right
}

/// Whether a branch on one word is taken.
pub open spec fn unary_condition(code: int, value: i32) -> bool {
    ||| code == 0 && value == 0
    ||| code == 1 && value != 0
    ||| code == 2 && value < 0
    ||| code == 3 && value > 0
}

/// The line that prints `value` in the given format: 0 is decimal with its
/// sign; 1 hexadecimal, 2 binary and 3 octal write the word's 32 bits as an
/// unsigned number behind `0x`, `0b` and `0o`. Any other format gives a line
/// that names it.
pub open spec fn print_line(value: i32, format: u8) -> Seq<char> {
    let bits = to_unsigned(value) as nat;
    if format == 0 {
        decimal(value as int).push('\n')
    } else if format == 1 {
        (seq!['0', 'x'] + digits(bits, 16)).push('\n')
    } else if format == 2 {
        (seq!['0', 'b'] + digits(bits, 2)).push('\n')
    } else if format == 3 {
        (seq!['0', 'o'] + digits(bits, 8)).push('\n')
    } else {
        ("\tPRINT: Invalid format: "@ + digits(format as nat, 10)).push('\n')
    }
}

/// One line of a dump: the address in four hexadecimal digits, a colon and a
/// space, and the word in eight.
pub open spec fn dump_line(addr: int, value: i32) -> Seq<char> {
    (padded_digits(addr as nat, 16, 4) + seq![':', ' '] + padded_digits(to_unsigned(value) as nat, 16, 8)).push(
        '\n',
    )
}

/// The number of words that `len` characters are packed into.
pub open spec fn chunk_count(len: nat) -> nat {
    (len + 2) / 3
}

/// The code that stands at place `i` of a packed string: the character's
/// where there is one, 1 behind the last.
pub open spec fn char_code(t: Seq<char>, len: nat, i: int) -> u32 {
    if 0 <= i < len {
        t[i] as u32
    } else {
        1
    }
}

/// The `k`-th word of a packed string, counted from its head: three codes,
/// the first in the lowest byte, and bit 24 set in every word but the last.
pub open spec fn chunk_word(t: Seq<char>, len: nat, k: int) -> i32 {
    let flag: u32 = if k + 1 < chunk_count(len) {
        0x100_0000
    } else {
        0
    };
    to_signed(
        (char_code(t, len, 3 * k + 2) << 16) | (char_code(t, len, 3 * k + 1) << 8) | char_code(
            t,
            len,
            3 * k,
        ) | flag,
    )
}

impl MachineState {
    /// Whether the byte at `addr` is in memory.
    pub open spec fn holds(self, addr: int) -> bool {
        0 <= addr < MEMORY_SIZE
    }

    /// The text of a dump from `addr` up: one line for every fourth address
    /// below the top of memory.
    pub open spec fn dump_text(self, addr: int) -> Seq<char>
        decreases 4100 - addr,
    {
        if !self.holds(addr) {
            Seq::empty()
        } else {
            dump_line(addr, self.peek(addr)) + self.dump_text(addr + 4)
        }
    }

    /// The string that starts at `addr`: the bytes from there up as
    /// characters, without the bytes of value 1, up to a byte of value 0 or
    /// the top of memory.
    pub open spec fn string_at(self, addr: int) -> Seq<char>
        decreases 4096 - addr,
    {
        if !self.holds(addr) || self.ram[addr] == 0 {
            Seq::empty()
        } else if self.ram[addr] == 1 {
            self.string_at(addr + 1)
        } else {
            seq![self.ram[addr] as char] + self.string_at(addr + 1)
        }
    }

    /// The state after the words of a packed string were pushed, from the
    /// last down to the `from`-th.
    pub open spec fn push_chunks(self, t: Seq<char>, len: nat, from: int) -> MachineState
        decreases chunk_count(len) - from,
    {
        if from >= chunk_count(len) {
            self
        } else {
            self.push_chunks(t, len, from + 1).push(chunk_word(t, len, from))
        }
    }

    /// The number of characters that a string input takes from a trimmed
    /// line.
    pub open spec fn taken(t: Seq<char>, window: nat) -> nat {
        if t.len() < window {
            t.len()
        } else {
            window
        }
    }

    /// Why a trimmed line cannot be pushed as a string, if it cannot.
    pub open spec fn string_fault(self, t: Seq<char>, window: nat) -> Option<Fault> {
        if t.len() == 0 {
            if self.can_push() {
                None
            } else {
                Some(Fault::StackOverflow)
            }
        } else if Self::taken(t, window) == 0 {
            Some(Fault::AddressOutOfRange)
        } else if self.sp < 4 * chunk_count(Self::taken(t, window)) {
            Some(Fault::StackOverflow)
        } else {
            None
        }
    }

    /// The state after a trimmed line was pushed as a string: a single 0 for
    /// an empty one, else its words from the tail to the head.
    pub open spec fn push_string(self, t: Seq<char>, window: nat) -> MachineState {
        if t.len() == 0 {
            self.push(0)
        } else {
            self.push_chunks(t, Self::taken(t, window), 0)
        }
    }

    /// The state after a jump by `offset` from the program counter.
    pub open spec fn jump_by(self, offset: int) -> MachineState {
        self.with_pc(wrap_address(self.pc + offset))
    }

    /// The state after the stack pointer moved by `offset`, a stack frame
    /// dropped; a target outside memory leaves the stack empty.
    pub open spec fn drop_frame(self, offset: int) -> MachineState {
        self.sp_jump(wrap_address(self.sp + offset))
    }
}

impl Instruction {
    /// Whether the instruction reads a line of input.
    pub open spec fn needs_line(self) -> bool {
        self is Input || self is StInput
    }

    /// Whether the instruction sets the program counter itself.
    pub open spec fn sets_pc(self) -> bool {
        self is Goto || self is BinaryIf || self is UnaryIf || self is Return || self is Call
    }

    /// Whether the instruction writes text.
    pub open spec fn writes(self) -> bool {
        self is Print || self is Dump || self is StPrint
    }

    /// Why the instruction cannot be carried out in state `s` with `line` as
    /// its input, if it cannot.
    pub open spec fn fault(self, s: MachineState, line: Seq<char>) -> Option<Fault> {
        match self {
            Instruction::Swap(word) => if s.holds(s.sp + swap_source(word)) && s.holds(
                s.sp + swap_target(word),
            ) {
                None
            } else {
                Some(Fault::AddressOutOfRange)
            },
            Instruction::Input | Instruction::Dup(_) | Instruction::Push(_) | Instruction::Call(_) => if s.can_push() {
                None
            } else {
                Some(Fault::StackOverflow)
            },
            Instruction::StInput(word) => s.string_fault(trim(line), window(word)),
            Instruction::StPrint(word) => if s.sp + offset_28(word) < 0 {
                Some(Fault::AddressOutOfRange)
            } else {
                None
            },
            Instruction::Return(word) => if s.drop_frame(offset_28(word)).can_pop() {
                None
            } else {
                Some(Fault::StackUnderflow)
            },
            Instruction::Neg | Instruction::Not => if !s.can_pop() {
                Some(Fault::StackUnderflow)
            } else {
                match self.unary_result(s.top()) {
                    Ok(_) => None,
                    Err(f) => Some(f),
                }
            },
            _ => if !self.is_binary() {
                None
            } else if !s.pop().can_pop() || !s.can_pop() {
                Some(Fault::StackUnderflow)
            } else {
                match self.binary_result(s.pop().top(), s.top()) {
                    Ok(_) => None,
                    Err(f) => Some(f),
                }
            },
        }
    }

    /// The state that the instruction leaves, from state `s` and with `line`
    /// as its input, where it can be carried out. The program counter moves
    /// only where the instruction sets it itself.
    pub open spec fn effect(self, s: MachineState, line: Seq<char>) -> MachineState
        recommends
            self.fault(s, line) is None,
    {
        match self {
            Instruction::Swap(word) => s.swap(s.sp + swap_source(word), s.sp + swap_target(word)),
            Instruction::Input => s.push(parse_line(line)),
            Instruction::StInput(word) => s.push_string(trim(line), window(word)),
            Instruction::Pop(offset) => if s.sp < MEMORY_SIZE {
                s.sp_jump(s.sp + offset)
            } else {
                s
            },
            Instruction::Neg | Instruction::Not => match self.unary_result(s.top()) {
                Ok(v) => s.pop().push(v),
                Err(_) => s,
            },
            Instruction::Call(word) => s.push(return_address(s.pc)).jump_by(offset_28(word)),
            Instruction::Return(word) => {
                let frame = s.drop_frame(offset_28(word));
                frame.pop().with_pc(wrap_address(frame.top() as int))
            },
            Instruction::Goto(word) => s.jump_by(offset_28(word)),
            Instruction::BinaryIf(word) => if binary_condition(
                condition_code(word, 8),
                s.peek(s.sp + 4),
                s.peek(s.sp),
            ) {
                s.jump_by(offset_24(word))
            } else {
                s.pc_increment()
            },
            Instruction::UnaryIf(word) => if unary_condition(condition_code(word, 4), s.peek(s.sp)) {
                s.jump_by(offset_24(word))
            } else {
                s.pc_increment()
            },
            Instruction::Dup(offset) => s.push(s.peek(s.sp + offset)),
            Instruction::Push(value) => s.push(
                match value {
                    Some(v) => v,
                    None => 0,
                },
            ),
            _ => if self.is_binary() {
                match self.binary_result(s.pop().top(), s.top()) {
                    Ok(v) => s.pop().pop().push(v),
                    Err(_) => s,
                }
            } else {
                s
            },
        }
    }

    /// The text that the instruction writes in state `s`.
    pub open spec fn output(self, s: MachineState) -> Seq<char> {
        match self {
            Instruction::Print(offset, format) => print_line(s.peek(s.sp + offset), format),
            Instruction::Dump => s.dump_text(s.sp),
            Instruction::StPrint(word) => s.string_at(s.sp + offset_28(word)),
            _ => Seq::empty(),
        }
    }
}

} // verus!
