//! Laws of the machine: what holds of every state and of every program.

use crate::engine::{EventView, Halt};
use crate::instruction::{decode, Instruction};
use crate::machine::{last_nonzero, stored_word, MachineState, LAST_WORD, MEMORY_SIZE};
use crate::semantics::{
    binary_condition, chunk_count, condition_code, offset_24, offset_28, payload, swap_source,
    swap_target, unary_condition,
};
use crate::word::{aligned_field, le_byte, le_value, signed_field, signed_from, to_unsigned};
use vstd::arithmetic::div_mod::lemma_mod_bound;
use vstd::arithmetic::power2::{lemma2_to64, pow2};
use vstd::prelude::*;

verus! {

impl MachineState {
    /// The state after the words of `values` were pushed, the first of them
    /// first.
    pub open spec fn push_all(self, values: Seq<i32>) -> MachineState
        decreases values.len(),
    {
        if values.len() == 0 {
            self
        } else {
            self.push_all(values.drop_last()).push(values.last())
        }
    }

    /// The state after `count` words were popped.
    pub open spec fn pop_times(self, count: nat) -> MachineState
        decreases count,
    {
        if count == 0 {
            self
        } else {
            self.pop_times((count - 1) as nat).pop()
        }
    }
}

impl Instruction {
    /// Where the instruction sends the program counter in state `s`, before
    /// the target is made an address; `None` where it does not branch.
    pub open spec fn branch_target(self, s: MachineState) -> Option<int> {
        match self {
            Instruction::Goto(word) | Instruction::Call(word) => Some(s.pc + offset_28(word)),
            Instruction::Return(word) => Some(s.drop_frame(offset_28(word)).top() as int),
            Instruction::BinaryIf(word) => if binary_condition(
                condition_code(word, 8),
                s.peek(s.sp + 4),
                s.peek(s.sp),
            ) {
                Some(s.pc + offset_24(word))
            } else {
                None
            },
            Instruction::UnaryIf(word) => if unary_condition(condition_code(word, 4), s.peek(s.sp)) {
                Some(s.pc + offset_24(word))
            } else {
                None
            },
            _ => None,
        }
    }
}

/// The four bytes of a word, read back least significant first, give the
/// word.
pub proof fn lemma_bytes_give_word(w: u32)
    ensures
        le_value(le_byte(w, 0), le_byte(w, 1), le_byte(w, 2), le_byte(w, 3)) == w,
{
    assert(w % 0x100 + 0x100 * (w / 0x100 % 0x100) + 0x1_0000 * (w / 0x1_0000 % 0x100) + 0x100_0000 * (w
        / 0x100_0000 % 0x100) == w) by (bit_vector);
}

/// A word is stored as it is where its bit 27 is clear, and where its bits
/// from 27 up are all set: so is every number of 28 bits, sign included.
/// What was stored once is stored as it is.
pub proof fn lemma_words_stored_unchanged(value: i32)
    ensures
        stored_word(value) == value <==> (to_unsigned(value) / 0x800_0000 % 2 == 0 || -0x800_0000
            <= value < 0),
        -0x800_0000 <= value < 0x800_0000 ==> stored_word(value) == value,
        stored_word(stored_word(value)) == stored_word(value),
{
}

/// A push leaves a well-formed state, with what stands for the value on top
/// and every word above it as it was.
pub proof fn lemma_push(s: MachineState, value: i32)
    requires
        s.well_formed(),
        s.can_push(),
    ensures
        s.push(value).well_formed(),
        s.push(value).sp == s.sp - 4,
        s.push(value).pc == s.pc,
        s.push(value).boundary == s.boundary,
        s.push(value).top() == stored_word(value),
        forall|addr: int| s.sp <= addr <= LAST_WORD ==> s.push(value).word_at(addr) == s.word_at(addr),
{
    lemma_bytes_give_word(to_unsigned(stored_word(value)));
}

/// After the words of `values` were pushed, each lies where its push wrote
/// it, as the push stored it.
proof fn lemma_push_all(s: MachineState, values: Seq<i32>)
    requires
        s.well_formed(),
        s.sp >= 4 * values.len(),
    ensures
        s.push_all(values).well_formed(),
        s.push_all(values).sp == s.sp - 4 * values.len(),
        forall|j: int|
            0 <= j < values.len() ==> s.push_all(values).word_at(s.sp - 4 * (j + 1)) == stored_word(
                #[trigger] values[j],
            ),
    decreases values.len(),
{
    if values.len() > 0 {
        let before = s.push_all(values.drop_last());
        lemma_push_all(s, values.drop_last());
        lemma_push(before, values.last());
        assert forall|j: int| 0 <= j < values.len() implies s.push_all(values).word_at(
            s.sp - 4 * (j + 1),
        ) == stored_word(#[trigger] values[j]) by {
            if j < values.len() - 1 {
                assert(values.drop_last()[j] == values[j]);
            }
        }
    }
}

/// Pops that stay under the top of memory move the stack pointer and
/// nothing else.
proof fn lemma_pop_times(s: MachineState, count: nat)
    requires
        s.well_formed(),
        s.sp + 4 * count <= MEMORY_SIZE,
    ensures
        s.pop_times(count) == s.with_sp(s.sp + 4 * count),
    decreases count,
{
    if count > 0 {
        lemma_pop_times(s, (count - 1) as nat);
    }
}

/// After the words of `values` were pushed, the `k`-th pop finds what the
/// push stored for the `k`-th value from the end, and as many pops as there
/// were pushes bring the stack pointer back to where it was.
pub proof fn lemma_pops_find_stored_words(s: MachineState, values: Seq<i32>)
    requires
        s.well_formed(),
        s.sp >= 4 * values.len(),
    ensures
        s.push_all(values).pop_times(values.len()).sp == s.sp,
        forall|k: int|
            0 <= k < values.len() ==> {
                &&& (#[trigger] s.push_all(values).pop_times(k as nat)).can_pop()
                &&& s.push_all(values).pop_times(k as nat).top() == stored_word(
                    values[values.len() - 1 - k],
                )
            },
{
    let full = s.push_all(values);
    lemma_push_all(s, values);
    lemma_pop_times(full, values.len());
    assert forall|k: int| 0 <= k < values.len() implies {
        &&& (#[trigger] full.pop_times(k as nat)).can_pop()
        &&& full.pop_times(k as nat).top() == stored_word(values[values.len() - 1 - k])
    } by {
        lemma_pop_times(full, k as nat);
    }
}

/// Last in, first out: where there is room for them, pushes of words that
/// are stored as they are, followed by as many pops, bring the stack pointer
/// back to where it was, and the pops return the words in the reverse of
/// the order in which they were pushed.
pub proof fn lemma_push_pop_lifo(s: MachineState, values: Seq<i32>)
    requires
        s.well_formed(),
        s.sp >= 4 * values.len(),
        forall|i: int| 0 <= i < values.len() ==> stored_word(#[trigger] values[i]) == values[i],
    ensures
        s.push_all(values).pop_times(values.len()).sp == s.sp,
        forall|k: int|
            0 <= k < values.len() ==> {
                &&& (#[trigger] s.push_all(values).pop_times(k as nat)).can_pop()
                &&& s.push_all(values).pop_times(k as nat).top() == values[values.len() - 1 - k]
            },
{
    lemma_pops_find_stored_words(s, values);
}

/// A machine whose stack has come down to the code boundary halts with a
/// stack overrun and carries nothing out, whatever its program.
pub proof fn lemma_stack_overrun_halts(s: MachineState, line: Option<Seq<char>>)
    requires
        s.sp <= s.boundary,
    ensures
        s.step(line) == (s, EventView::Halted(Halt::StackOverrun)),
{
}

/// A word that encodes no instruction is skipped: the program counter goes
/// on by one word, nothing else changes, and the machine does not halt.
pub proof fn lemma_unrecognized_is_skipped(s: MachineState, line: Option<Seq<char>>)
    requires
        s.halted() is None,
        decode(s.fetch()) is None,
    ensures
        s.step(line) == (s.pc_increment(), EventView::Unrecognized(s.pc)),
        s.step(line).0.sp == s.sp,
        s.step(line).0.ram == s.ram,
        s.step(line).0.pc == s.pc + 4,
{
}

/// Pushing the words of a packed string leaves a well-formed state, and
/// moves nothing but the stack.
proof fn lemma_push_chunks(s: MachineState, t: Seq<char>, len: nat, from: int)
    requires
        s.well_formed(),
        0 <= from <= chunk_count(len),
        s.sp >= 4 * (chunk_count(len) - from),
    ensures
        s.push_chunks(t, len, from).well_formed(),
        s.push_chunks(t, len, from).sp == s.sp - 4 * (chunk_count(len) - from),
        s.push_chunks(t, len, from).pc == s.pc,
        s.push_chunks(t, len, from).boundary == s.boundary,
    decreases chunk_count(len) - from,
{
    if from < chunk_count(len) {
        lemma_push_chunks(s, t, len, from + 1);
        lemma_push(s.push_chunks(t, len, from + 1), crate::semantics::chunk_word(t, len, from));
    }
}

/// A displacement of 28 bits lies within 2^27 of 0, one of 24 bits within
/// 2^23, and both are multiples of 4.
pub proof fn lemma_offsets_are_bounded(word: [u8; 4])
    ensures
        -0x800_0000 <= offset_28(word) < 0x800_0000,
        -0x80_0000 <= offset_24(word) < 0x80_0000,
        offset_28(word) % 4 == 0,
        offset_24(word) % 4 == 0,
{
    lemma2_to64();
    lemma_aligned_field_is_bounded(payload(word), 28, 0x800_0000);
    lemma_aligned_field_is_bounded(payload(word), 24, 0x80_0000);
}

/// The fields of a word in plain numbers: each is what its bits write,
/// less the range of the field where the highest of them is set.
pub proof fn lemma_fields_in_plain_numbers(word: [u8; 4])
    ensures
        offset_28(word) == signed_from(payload(word) % 0x1000_0000 - payload(word) % 4, 0x800_0000),
        offset_24(word) == signed_from(payload(word) % 0x100_0000 - payload(word) % 4, 0x80_0000),
        swap_source(word) == 4 * signed_from(payload(word) as int / 0x1000 % 0x1000, 0x800),
        swap_target(word) == 4 * signed_from(payload(word) as int % 0x1000, 0x800),
{
    lemma2_to64();
}

/// A displacement lies within half the range of its field, and is a
/// multiple of 4.
proof fn lemma_aligned_field_is_bounded(w: u32, bits: nat, half: int)
    requires
        pow2(bits) == 2 * half,
        half > 0,
        half % 4 == 0,
    ensures
        -half <= aligned_field(w, bits) < half,
        aligned_field(w, bits) % 4 == 0,
{
    lemma_mod_bound(w as int, 2 * half);
}

/// An instruction that can be carried out leaves a well-formed state, and
/// the program counter where it was unless the instruction branches.
pub proof fn lemma_effect_is_well_formed(instruction: Instruction, s: MachineState, line: Seq<char>)
    requires
        s.well_formed(),
        instruction.fault(s, line) is None,
    ensures
        instruction.effect(s, line).well_formed(),
        !instruction.sets_pc() ==> instruction.effect(s, line).pc == s.pc,
        instruction.effect(s, line).boundary == s.boundary,
{
    match instruction {
        Instruction::Goto(word)
        | Instruction::BinaryIf(word)
        | Instruction::UnaryIf(word)
        | Instruction::Return(word) => {
            lemma_offsets_are_bounded(word);
        },
        Instruction::Input => {
            lemma_push(s, crate::text::parse_line(line));
        },
        Instruction::StInput(word) => {
            let t = crate::text::trim(line);
            let window = crate::semantics::window(word);
            if t.len() == 0 {
                lemma_push(s, 0);
            } else {
                lemma_push_chunks(s, t, MachineState::taken(t, window), 0);
            }
        },
        Instruction::Neg | Instruction::Not => {
            match instruction.unary_result(s.top()) {
                Ok(v) => {
                    lemma_push(s.pop(), v);
                },
                Err(_) => {},
            }
        },
        Instruction::Call(word) => {
            lemma_offsets_are_bounded(word);
            lemma_push(s, crate::semantics::return_address(s.pc));
        },
        Instruction::Dup(offset) => {
            lemma_push(s, s.peek(s.sp + offset));
        },
        Instruction::Push(value) => {
            lemma_push(
                s,
                match value {
                    Some(v) => v,
                    None => 0,
                },
            );
        },
        _ => {
            if instruction.is_binary() {
                match instruction.binary_result(s.pop().top(), s.top()) {
                    Ok(v) => {
                        lemma_push(s.pop().pop(), v);
                    },
                    Err(_) => {},
                }
            }
        },
    }
}

impl MachineState {
    /// Whether the next step, if it carries out a branch, sends the program
    /// counter to an address in memory or to its top.
    pub open spec fn branches_inside(self) -> bool {
        self.halted() is None ==> match decode(self.fetch()) {
            Some(instruction) => match instruction.branch_target(self) {
                Some(target) => 0 <= target <= MEMORY_SIZE,
                None => true,
            },
            None => true,
        }
    }

    /// Whether every step of a run of at most `budget` steps does.
    pub open spec fn runs_inside(self, budget: nat) -> bool
        decreases budget,
    {
        budget > 0 ==> self.branches_inside() && (self.step(None).1 is Continue ==> self.step(
            None,
        ).0.runs_inside((budget - 1) as nat))
    }

    /// Whether the stack pointer and the program counter lie between 0 and
    /// the top of memory.
    pub open spec fn registers_in_range(self) -> bool {
        self.well_formed() && self.pc <= MEMORY_SIZE
    }
}

/// The registers stay in range: from a state with the stack pointer and the
/// program counter between 0 and the top of memory, a step leaves them
/// there, unless it carries out a branch whose target lies outside memory.
pub proof fn lemma_step_keeps_registers_in_range(s: MachineState, line: Option<Seq<char>>)
    requires
        s.registers_in_range(),
        s.branches_inside(),
    ensures
        s.step(line).0.registers_in_range(),
        0 <= s.step(line).0.sp <= MEMORY_SIZE,
        0 <= s.step(line).0.pc <= MEMORY_SIZE,
{
    if s.halted() is None {
        match decode(s.fetch()) {
            Some(instruction) => {
                let text = match line {
                    Some(text) => text,
                    None => Seq::empty(),
                };
                if instruction.fault(s, text) is None {
                    lemma_effect_is_well_formed(instruction, s, text);
                }
            },
            None => {},
        }
    }
}

/// The registers stay in range over a whole run, unless one of its steps
/// carries out a branch whose target lies outside memory.
pub proof fn lemma_run_keeps_registers_in_range(s: MachineState, budget: nat)
    requires
        s.registers_in_range(),
        s.runs_inside(budget),
    ensures
        s.run(budget).0.registers_in_range(),
    decreases budget,
{
    if budget > 0 {
        lemma_step_keeps_registers_in_range(s, None);
        if s.step(None).1 is Continue {
            lemma_run_keeps_registers_in_range(s.step(None).0, (budget - 1) as nat);
        }
    }
}

/// A machine that was just made has its registers in range, and loading a
/// program and finding the code boundary leave them there.
pub proof fn lemma_start_is_in_range(bytes: Seq<u8>)
    requires
        bytes.len() <= MEMORY_SIZE,
    ensures
        MachineState::initial().registers_in_range(),
        (MachineState {
            ram: MachineState::initial().ram_loaded(bytes),
            boundary: bytes.len() as int,
            ..MachineState::initial()
        }).rescanned().registers_in_range(),
{
    let loaded = MachineState {
        ram: MachineState::initial().ram_loaded(bytes),
        boundary: bytes.len() as int,
        ..MachineState::initial()
    };
    lemma_last_nonzero_is_bounded(loaded.ram, MEMORY_SIZE as int);
}

/// The last byte that is not 0 lies under the bound of the search.
proof fn lemma_last_nonzero_is_bounded(ram: Seq<u8>, below: int)
    requires
        0 <= below,
    ensures
        -1 <= last_nonzero(ram, below) < below,
    decreases below,
{
    if below > 0 && ram[below - 1] == 0 {
        lemma_last_nonzero_is_bounded(ram, below - 1);
    }
}

} // verus!
