//! Carrying instructions out on a machine.

use crate::instruction::{Fault, Instruction};
use crate::machine::{Machine, LAST_WORD, MEMORY_SIZE};
use crate::semantics::{
    binary_condition, char_code, chunk_count, chunk_word, dump_line, offset_24, offset_28, payload,
    print_line, return_address, swap_source, swap_target, unary_condition, window, wrap_address,
};
use crate::text::{append_decimal, append_digits, append_str, parse_input, trim, trim_bounds};
use crate::word::{relative_offset, sign_extend, signed_of, unsigned_of, word_from_bytes};
use vstd::arithmetic::power2::lemma2_to64;
use vstd::prelude::*;

verus! {

/// The unsigned value of an instruction's word.
fn payload_of(word: &[u8; 4]) -> (w: u32)
    ensures
        w == payload(*word),
{
    word_from_bytes(word[0], word[1], word[2], word[3])
}

/// The displacement in the low 28 bits of a word.
fn offset_28_of(word: &[u8; 4]) -> (v: i32)
    ensures
        v == offset_28(*word),
        -0x800_0000 <= v < 0x800_0000,
{
    proof {
        lemma2_to64();
    }
    relative_offset(payload_of(word), 28)
}

/// The displacement in the low 24 bits of a word.
fn offset_24_of(word: &[u8; 4]) -> (v: i32)
    ensures
        v == offset_24(*word),
        -0x80_0000 <= v < 0x80_0000,
{
    proof {
        lemma2_to64();
    }
    relative_offset(payload_of(word), 24)
}

/// The two displacements of a swap, in bytes.
fn swap_fields(word: &[u8; 4]) -> (fields: (i32, i32))
    ensures
        fields.0 == swap_source(*word),
        fields.1 == swap_target(*word),
        -8192 <= fields.0 <= 8188,
        -8192 <= fields.1 <= 8188,
{
    proof {
        lemma2_to64();
    }
    let w: u32 = payload_of(word);
    let high: u32 = w >> 12;
    assert(w >> 12 == w / 0x1000) by (bit_vector);
    let source: i32 = sign_extend(high, 12);
    let target: i32 = sign_extend(w, 12);
    (4 * source, 4 * target)
}

/// The number of characters that a string input takes at most.
fn window_of(word: &[u8; 4]) -> (n: usize)
    ensures
        n == window(*word),
{
    let w: u32 = payload_of(word);
    assert(w & 0x00FF_FFFF == w % 0x100_0000) by (bit_vector);
    (w & 0x00FF_FFFF) as usize
}

/// The address that lies `offset` from `base`, around the ends of the
/// address range where it must.
fn address_of(base: usize, offset: i32) -> (addr: usize)
    ensures
        addr == wrap_address(base + offset),
{
    if offset >= 0 {
        let up: usize = offset as usize;
        if base > usize::MAX - up {
            base - (usize::MAX - up) - 1
        } else {
            base + up
        }
    } else {
        let down: usize = (-(offset as i64)) as usize;
        if base >= down {
            base - down
        } else {
            usize::MAX - (down - base) + 1
        }
    }
}

/// The return address that a call at `pc` pushes.
fn return_address_of(pc: usize) -> (addr: i32)
    ensures
        addr == return_address(pc as int),
{
    let low: u32 = ((pc as u64) % 0x1_0000_0000) as u32;
    let next: u32 = low.wrapping_add(4);
    signed_of(next)
}

/// The word that lies `offset` from the stack pointer, or 0 where no whole
/// word starts there.
fn read_relative(machine: &Machine, offset: i32) -> (word: i32)
    ensures
        word == machine@.peek(machine@.sp + offset),
{
    let addr: i64 = (machine.get_stack_pointer() as i64) + (offset as i64);
    if 0 <= addr && addr <= 4092 {
        machine.peek(addr as usize)
    } else {
        0
    }
}

/// The line that prints `value` in the given format.
fn print_text(value: i32, format: u8) -> (out: Vec<char>)
    ensures
        out@ == print_line(value, format),
{
    let mut out: Vec<char> = Vec::new();
    if format == 0 {
        append_decimal(&mut out, value);
    } else if format == 1 {
        out.push('0');
        out.push('x');
        append_digits(&mut out, unsigned_of(value), 16, 0);
    } else if format == 2 {
        out.push('0');
        out.push('b');
        append_digits(&mut out, unsigned_of(value), 2, 0);
    } else if format == 3 {
        out.push('0');
        out.push('o');
        append_digits(&mut out, unsigned_of(value), 8, 0);
    } else {
        append_str(&mut out, "\tPRINT: Invalid format: ");
        append_digits(&mut out, format as u32, 10, 0);
    }
    out.push('\n');
    out
}

/// The text of a dump of the stack.
fn dump_text_of(machine: &Machine) -> (out: Vec<char>)
    ensures
        out@ == machine@.dump_text(machine@.sp),
{
    let mut out: Vec<char> = Vec::new();
    let sp: usize = machine.get_stack_pointer();
    let mut addr: usize = sp;
    while addr < MEMORY_SIZE
        invariant
            sp <= addr <= MEMORY_SIZE + 3,
            out@ + machine@.dump_text(addr as int) =~= machine@.dump_text(sp as int),
        decreases MEMORY_SIZE + 4 - addr,
    {
        let value: i32 = machine.peek(addr);
        append_digits(&mut out, addr as u32, 16, 4);
        out.push(':');
        out.push(' ');
        append_digits(&mut out, unsigned_of(value), 16, 8);
        out.push('\n');
        addr += 4;
    }
    out
}

/// The string that starts at `start`.
fn string_of(machine: &Machine, start: usize) -> (out: Vec<char>)
    ensures
        out@ == machine@.string_at(start as int),
{
    let mut out: Vec<char> = Vec::new();
    let mut index: usize = start;
    while index < MEMORY_SIZE
        invariant
            start <= index,
            out@ + machine@.string_at(index as int) =~= machine@.string_at(start as int),
        decreases MEMORY_SIZE - index,
    {
        let b: u8 = *machine.get_byte(index);
        if b == 0 {
            return out;
        }
        if b != 1 {
            out.push(b as char);
        }
        index += 1;
    }
    out
}

/// The number of words that `len` characters are packed into.
fn chunks_for(len: usize) -> (count: usize)
    ensures
        count == chunk_count(len as nat),
        len > 0 ==> count > 0,
        3 * count <= len + 2,
        3 * count >= len,
{
    if len % 3 == 0 {
        len / 3
    } else {
        len / 3 + 1
    }
}

/// The `k`-th word of the string packed from the first `len` characters of
/// the line behind `start`.
fn chunk_of(line: &[char], start: usize, end: usize, len: usize, k: usize) -> (word: i32)
    requires
        start <= end <= line@.len(),
        len <= end - start,
        k < chunk_count(len as nat),
    ensures
        word == chunk_word(line@.subrange(start as int, end as int), len as nat, k as int),
{
    let count: usize = chunks_for(len);
    let first: usize = 3 * k;
    let left: usize = len - first;
    let c0: u32 = line[start + first] as u32;
    let c1: u32 = if left > 1 {
        line[start + first + 1] as u32
    } else {
        1
    };
    let c2: u32 = if left > 2 {
        line[start + first + 2] as u32
    } else {
        1
    };
    let flag: u32 = if k + 1 < count {
        0x100_0000
    } else {
        0
    };
    signed_of((c2 << 16) | (c1 << 8) | c0 | flag)
}

/// Pushes a line as a string: trimmed, cut to `window` characters, packed
/// three to a word, the tail first.
fn push_line(machine: &mut Machine, line: &[char], window: usize)
    requires
        old(machine)@.string_fault(trim(line@), window as nat) is None,
    ensures
        final(machine)@ == old(machine)@.push_string(trim(line@), window as nat),
{
    let (start, end) = trim_bounds(line);
    let ghost t = trim(line@);
    let ghost origin = machine@;
    let sp: usize = machine.get_stack_pointer();
    if start == end {
        machine.stack_push(0);
        return ;
    }
    let len: usize = if end - start < window {
        end - start
    } else {
        window
    };
    let count: usize = chunks_for(len);
    let mut k: usize = count;
    while k > 0
        invariant
            k <= count,
            count == chunk_count(len as nat),
            start <= end <= line@.len(),
            len <= end - start,
            t == line@.subrange(start as int, end as int),
            origin.well_formed(),
            origin.sp == sp,
            origin.sp >= 4 * count,
            machine@ == origin.push_chunks(t, len as nat, k as int),
            machine@.sp == origin.sp - 4 * (count - k),
        decreases k,
    {
        k -= 1;
        let word: i32 = chunk_of(line, start, end, len, k);
        machine.stack_push(word);
    }
}

/// Why a line cannot be pushed as a string, if it cannot.
fn string_trap(machine: &Machine, line: &[char], window: usize) -> (fault: Option<Fault>)
    ensures
        fault == machine@.string_fault(trim(line@), window as nat),
{
    let (start, end) = trim_bounds(line);
    let sp: usize = machine.get_stack_pointer();
    if start == end {
        if sp >= 4 {
            None
        } else {
            Some(Fault::StackOverflow)
        }
    } else {
        let len: usize = if end - start < window {
            end - start
        } else {
            window
        };
        if len == 0 {
            Some(Fault::AddressOutOfRange)
        } else if sp / 4 < chunks_for(len) {
            Some(Fault::StackOverflow)
        } else {
            None
        }
    }
}

/// The fault of a result, if it is one.
fn fault_of(result: Result<i32, Fault>) -> (fault: Option<Fault>)
    ensures
        fault == match result {
            Ok(_) => None::<Fault>,
            Err(f) => Some(f),
        },
{
    match result {
        Ok(_) => None,
        Err(f) => Some(f),
    }
}

/// Whether a branch on two words is taken.
fn holds_of_two(code: u8, left: i32, right: i32) -> (taken: bool)
    ensures
        taken == binary_condition(code as int, left, right),
{
    match code {
        0 => left == right,
        1 => left != right,
        2 => left < right,
        3 => left > right,
        4 => left <= right,
        5 => left >= right,
        _ => false,
    }
}

/// Whether a branch on one word is taken.
fn holds_of_one(code: u8, value: i32) -> (taken: bool)
    ensures
        taken == unary_condition(code as int, value),
{
    match code {
        0 => value == 0,
        1 => value != 0,
        2 => value < 0,
        3 => value > 0,
        _ => false,
    }
}

impl Instruction {
    /// Tells why the instruction cannot be carried out on `machine` with
    /// `line` as its input: `None` where it can.
    pub fn trap(&self, machine: &Machine, line: &[char]) -> (fault: Option<Fault>)
        ensures
            fault == self.fault(machine@, line@),
    {
        let sp: usize = machine.get_stack_pointer();
        match self {
            Instruction::Swap(word) => {
                let (source, target) = swap_fields(word);
                let a: i64 = (sp as i64) + (source as i64);
                let b: i64 = (sp as i64) + (target as i64);
                if 0 <= a && a < 4096 && 0 <= b && b < 4096 {
                    None
                } else {
                    Some(Fault::AddressOutOfRange)
                }
            },
            Instruction::Input | Instruction::Dup(_) | Instruction::Push(_) | Instruction::Call(_) => {
                if sp >= 4 {
                    None
                } else {
                    Some(Fault::StackOverflow)
                }
            },
            Instruction::StInput(word) => string_trap(machine, line, window_of(word)),
            Instruction::StPrint(word) => {
                let offset: i32 = offset_28_of(word);
                if (sp as i64) + (offset as i64) < 0 {
                    Some(Fault::AddressOutOfRange)
                } else {
                    None
                }
            },
            Instruction::Return(word) => {
                let offset: i32 = offset_28_of(word);
                let frame: i64 = (sp as i64) + (offset as i64);
                if 0 <= frame && frame <= 4092 {
                    None
                } else {
                    Some(Fault::StackUnderflow)
                }
            },
            Instruction::Neg | Instruction::Not => {
                if sp > LAST_WORD {
                    Some(Fault::StackUnderflow)
                } else {
                    fault_of(self.compute_unary(machine.peek(sp)))
                }
            },
            Instruction::Add
            | Instruction::Sub
            | Instruction::Mul
            | Instruction::Div
            | Instruction::Rem
            | Instruction::And
            | Instruction::Or
            | Instruction::Xor
            | Instruction::Lsl
            | Instruction::Lsr
            | Instruction::Asr => {
                if sp > LAST_WORD - 4 {
                    Some(Fault::StackUnderflow)
                } else {
                    fault_of(self.compute_binary(machine.peek(sp + 4), machine.peek(sp)))
                }
            },
            _ => None,
        }
    }

    /// Carries the instruction out on `machine`, with `line` as its input,
    /// and returns the text that it writes. The program counter moves only
    /// where the instruction sets it itself; `Exit` does nothing here.
    pub fn execute(&self, machine: &mut Machine, line: &[char]) -> (output: Vec<char>)
        requires
            self.fault(old(machine)@, line@) is None,
        ensures
            final(machine)@ == self.effect(old(machine)@, line@),
            output@ == self.output(old(machine)@),
    {
        let sp: usize = machine.get_stack_pointer();
        let pc: usize = machine.get_program_counter();
        match self {
            Instruction::Swap(word) => {
                let (source, target) = swap_fields(word);
                let a: i64 = (sp as i64) + (source as i64);
                let b: i64 = (sp as i64) + (target as i64);
                machine.swap(a as usize, b as usize);
                Vec::new()
            },
            Instruction::Input => {
                machine.stack_push(parse_input(line));
                Vec::new()
            },
            Instruction::StInput(word) => {
                push_line(machine, line, window_of(word));
                Vec::new()
            },
            Instruction::Pop(offset) => {
                if sp < MEMORY_SIZE {
                    let target: u64 = (sp as u64) + (*offset as u64);
                    if target > 4096 {
                        machine.sp_jump(MEMORY_SIZE);
                    } else {
                        machine.sp_jump(target as usize);
                    }
                }
                Vec::new()
            },
            Instruction::Neg | Instruction::Not => {
                let value: i32 = machine.stack_pop();
                match self.compute_unary(value) {
                    Ok(v) => machine.stack_push(v),
                    Err(_) => {},
                }
                Vec::new()
            },
            Instruction::Add
            | Instruction::Sub
            | Instruction::Mul
            | Instruction::Div
            | Instruction::Rem
            | Instruction::And
            | Instruction::Or
            | Instruction::Xor
            | Instruction::Lsl
            | Instruction::Lsr
            | Instruction::Asr => {
                let right: i32 = machine.stack_pop();
                let left: i32 = machine.stack_pop();
                match self.compute_binary(left, right) {
                    Ok(v) => machine.stack_push(v),
                    Err(_) => {},
                }
                Vec::new()
            },
            Instruction::StPrint(word) => {
                let offset: i32 = offset_28_of(word);
                let start: i64 = (sp as i64) + (offset as i64);
                string_of(machine, start as usize)
            },
            Instruction::Call(word) => {
                let offset: i32 = offset_28_of(word);
                machine.stack_push(return_address_of(pc));
                machine.pc_jump(address_of(pc, offset));
                Vec::new()
            },
            Instruction::Return(word) => {
                let offset: i32 = offset_28_of(word);
                machine.sp_jump(address_of(sp, offset));
                let target: i32 = machine.stack_pop();
                machine.pc_jump(address_of(0, target));
                Vec::new()
            },
            Instruction::Goto(word) => {
                let offset: i32 = offset_28_of(word);
                machine.pc_jump(address_of(pc, offset));
                Vec::new()
            },
            Instruction::BinaryIf(word) => {
                let code: u8 = (word[3] >> 1) & 0x7;
                let high: u8 = word[3];
                assert((high >> 1) & 0x7 == high / 2 % 8) by (bit_vector);
                let offset: i32 = offset_24_of(word);
                let right: i32 = machine.peek(sp);
                let left: i32 = machine.peek(sp + 4);
                if holds_of_two(code, left, right) {
                    machine.pc_jump(address_of(pc, offset));
                } else {
                    machine.pc_increment();
                }
                Vec::new()
            },
            Instruction::UnaryIf(word) => {
                let code: u8 = (word[3] >> 1) & 0x3;
                let high: u8 = word[3];
                assert((high >> 1) & 0x3 == high / 2 % 4) by (bit_vector);
                let offset: i32 = offset_24_of(word);
                let value: i32 = machine.peek(sp);
                if holds_of_one(code, value) {
                    machine.pc_jump(address_of(pc, offset));
                } else {
                    machine.pc_increment();
                }
                Vec::new()
            },
            Instruction::Dup(offset) => {
                let value: i32 = read_relative(machine, *offset);
                machine.stack_push(value);
                Vec::new()
            },
            Instruction::Print(offset, format) => print_text(read_relative(machine, *offset), *format),
            Instruction::Dump => dump_text_of(machine),
            Instruction::Push(value) => {
                let v: i32 = match value {
                    Some(v) => *v,
                    None => 0,
                };
                machine.stack_push(v);
                Vec::new()
            },
            Instruction::Exit | Instruction::Nop | Instruction::Debug => Vec::new(),
        }
    }
}

} // verus!
