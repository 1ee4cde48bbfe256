//! The machine's state: 4096 bytes of memory, a stack that grows downward
//! from the top of it, and a program counter.

use crate::word::{le_byte, le_value, signed_of, to_signed, to_unsigned, unsigned_of, word_from_bytes, word_to_bytes};
use vstd::prelude::*;

verus! {

/// The number of bytes of memory; also the stack pointer of an empty stack.
pub const MEMORY_SIZE: usize = 4096;

/// The highest address at which a whole word can be read.
pub const LAST_WORD: usize = 4092;

/// The mathematical state of a machine.
pub struct MachineState {
    pub ram: Seq<u8>,
    pub sp: int,
    pub pc: int,
    pub boundary: int,
}

/// What a push writes for `value`: where bit 27 is set, bits 28 to 31 are set
/// too; any other value is written as it is.
pub open spec fn stored_word(value: i32) -> i32 {
    let u = to_unsigned(value);
    if u / 0x800_0000 % 2 == 1 {
        to_signed((u % 0x1000_0000 + 0xF000_0000) as u32)
    } else {
        value
    }
}

/// The highest address under `below` whose byte is not 0, or -1 where there
/// is none.
pub open spec fn last_nonzero(ram: Seq<u8>, below: int) -> int
    decreases below,
{
    if below <= 0 {
        -1
    } else if ram[below - 1] != 0 {
        below - 1
    } else {
        last_nonzero(ram, below - 1)
    }
}

/// The lowest multiple of 4 that is not under `n`.
pub open spec fn word_ceiling(n: int) -> int {
    (n + 3) / 4 * 4
}

impl MachineState {
    /// Whether the state is one that a machine can be in: memory has its
    /// size, and the stack pointer and the code boundary lie between 0 and
    /// the top of memory.
    pub open spec fn well_formed(self) -> bool {
        &&& self.ram.len() == MEMORY_SIZE
        &&& 0 <= self.sp <= MEMORY_SIZE
        &&& 0 <= self.pc
        &&& 0 <= self.boundary <= MEMORY_SIZE
    }

    /// The state of a machine that was just made.
    pub open spec fn initial() -> MachineState {
        MachineState { ram: Seq::new(MEMORY_SIZE as nat, |i: int| 0u8), sp: MEMORY_SIZE as int, pc: 0, boundary: 0 }
    }

    /// The word whose four bytes start at `addr`.
    pub open spec fn word_at(self, addr: int) -> i32
        recommends
            0 <= addr <= LAST_WORD,
    {
        to_signed(
            le_value(self.ram[addr], self.ram[addr + 1], self.ram[addr + 2], self.ram[addr + 3]) as u32,
        )
    }

    /// The word at `addr`, or 0 where no whole word starts there.
    pub open spec fn peek(self, addr: int) -> i32 {
        if 0 <= addr <= LAST_WORD {
            self.word_at(addr)
        } else {
            0
        }
    }

    /// The memory with the four bytes of `value` written from `addr` on.
    pub open spec fn ram_with_word(self, addr: int, value: i32) -> Seq<u8>
        recommends
            0 <= addr <= LAST_WORD,
    {
        let w = to_unsigned(value);
        self.ram.update(addr, le_byte(w, 0)).update(addr + 1, le_byte(w, 1)).update(
            addr + 2,
            le_byte(w, 2),
        ).update(addr + 3, le_byte(w, 3))
    }

    /// The state with the stack pointer at `sp`.
    pub open spec fn with_sp(self, sp: int) -> MachineState {
        MachineState { sp, ..self }
    }

    /// The state with the program counter at `pc`.
    pub open spec fn with_pc(self, pc: int) -> MachineState {
        MachineState { pc, ..self }
    }

    /// The state after the stack pointer was set to `addr`, held to the top of
    /// memory.
    pub open spec fn sp_jump(self, addr: int) -> MachineState {
        self.with_sp(if addr > MEMORY_SIZE { MEMORY_SIZE as int } else { addr })
    }

    /// The state after the program counter went on by one word, held to the
    /// top of memory.
    pub open spec fn pc_increment(self) -> MachineState {
        self.with_pc(if self.pc + 4 > MEMORY_SIZE { MEMORY_SIZE as int } else { self.pc + 4 })
    }

    /// Whether a word can be pushed.
    pub open spec fn can_push(self) -> bool {
        self.sp >= 4
    }

    /// The state after `value` was pushed.
    pub open spec fn push(self, value: i32) -> MachineState
        recommends
            self.can_push(),
    {
        MachineState {
            ram: self.ram_with_word(self.sp - 4, stored_word(value)),
            sp: self.sp - 4,
            ..self
        }
    }

    /// Whether a word can be popped.
    pub open spec fn can_pop(self) -> bool {
        self.sp <= LAST_WORD
    }

    /// The word on top of the stack.
    pub open spec fn top(self) -> i32
        recommends
            self.can_pop(),
    {
        self.word_at(self.sp)
    }

    /// The state after the top word was popped.
    pub open spec fn pop(self) -> MachineState
        recommends
            self.can_pop(),
    {
        self.sp_jump(self.sp + 4)
    }

    /// The state after the bytes at `a` and `b` changed places.
    pub open spec fn swap(self, a: int, b: int) -> MachineState
        recommends
            0 <= a < MEMORY_SIZE,
            0 <= b < MEMORY_SIZE,
    {
        MachineState { ram: self.ram.update(a, self.ram[b]).update(b, self.ram[a]), ..self }
    }

    /// The state with the code boundary found anew: the next multiple of 4
    /// above the last byte that is not 0, and the boundary as it was where
    /// every byte is 0.
    pub open spec fn rescanned(self) -> MachineState {
        let last = last_nonzero(self.ram, MEMORY_SIZE as int);
        if last < 0 {
            self
        } else {
            MachineState { boundary: word_ceiling(last + 1), ..self }
        }
    }

    /// The memory after `bytes` were copied to its start.
    pub open spec fn ram_loaded(self, bytes: Seq<u8>) -> Seq<u8>
        recommends
            bytes.len() <= MEMORY_SIZE,
    {
        Seq::new(MEMORY_SIZE as nat, |i: int| if i < bytes.len() { bytes[i] } else { self.ram[i] })
    }
}

/// A machine. Its stack pointer and its code boundary never lie above the
/// top of memory.
pub struct Machine {
    ram: [u8; 4096],
    stack_pointer: usize,
    program_counter: usize,
    last_instruction_index: usize,
}

impl View for Machine {
    type V = MachineState;

    closed spec fn view(&self) -> MachineState {
        MachineState {
            ram: self.ram@,
            sp: self.stack_pointer as int,
            pc: self.program_counter as int,
            boundary: self.last_instruction_index as int,
        }
    }
}

impl Machine {
    /// What holds of every machine: the stack pointer and the code boundary do
    /// not lie above the top of memory.
    #[verifier::type_invariant]
    spec fn bounded(self) -> bool {
        self.stack_pointer <= MEMORY_SIZE && self.last_instruction_index <= MEMORY_SIZE
    }

    /// A machine with zeroed memory, an empty stack and the program counter
    /// at 0.
    pub fn new() -> (m: Machine)
        ensures
            m@ == MachineState::initial(),
            m@.well_formed(),
    {
        let m = Machine { ram: [0; 4096], stack_pointer: 4096, program_counter: 0, last_instruction_index: 0 };
        assert(m@.ram =~= MachineState::initial().ram);
        m
    }

    /// Copies `bytes` to the start of memory and sets the code boundary to
    /// their number.
    pub fn load_bytes(&mut self, bytes: &[u8])
        requires
            bytes@.len() <= MEMORY_SIZE,
        ensures
            final(self)@ == (MachineState {
                ram: old(self)@.ram_loaded(bytes@),
                boundary: bytes@.len() as int,
                ..old(self)@
            }),
            final(self)@.well_formed(),
    {
        let n: usize = bytes.len();
        let mut i: usize = 0;
        while i < n
            invariant
                n == bytes@.len(),
                n <= MEMORY_SIZE,
                i <= n,
                self.stack_pointer == old(self).stack_pointer,
                self.program_counter == old(self).program_counter,
                self.last_instruction_index == old(self).last_instruction_index,
                forall|k: int| 0 <= k < i ==> self.ram@[k] == bytes@[k],
                forall|k: int| i <= k < MEMORY_SIZE ==> self.ram@[k] == old(self).ram@[k],
            decreases n - i,
        {
            proof {
                use_type_invariant(&*self);
            }
            self.ram[i] = bytes[i];
            i += 1;
        }
        proof {
            use_type_invariant(&*self);
        }
        self.last_instruction_index = n;
        assert(self.ram@ =~= old(self)@.ram_loaded(bytes@));
    }

    /// The byte at `index`.
    pub fn get_byte(&self, index: usize) -> (b: &u8)
        requires
            index < MEMORY_SIZE,
        ensures
            *b == self@.ram[index as int],
            self@.well_formed(),
    {
        proof {
            use_type_invariant(self);
        }
        &self.ram[index]
    }

    /// The stack pointer: the address of the word on top of the stack.
    pub fn get_stack_pointer(&self) -> (sp: usize)
        ensures
            sp == self@.sp,
            sp <= MEMORY_SIZE,
            self@.well_formed(),
    {
        proof {
            use_type_invariant(self);
        }
        self.stack_pointer
    }

    /// The program counter: the address of the next instruction.
    pub fn get_program_counter(&self) -> (pc: usize)
        ensures
            pc == self@.pc,
            self@.well_formed(),
    {
        proof {
            use_type_invariant(self);
        }
        self.program_counter
    }

    /// The code boundary: the address at which the program ends.
    pub fn get_boundary(&self) -> (boundary: usize)
        ensures
            boundary == self@.boundary,
            boundary <= MEMORY_SIZE,
            self@.well_formed(),
    {
        proof {
            use_type_invariant(self);
        }
        self.last_instruction_index
    }

    /// Finds the code boundary anew, from what memory holds: the next
    /// multiple of 4 above the last byte that is not 0. Where every byte is
    /// 0 the boundary stays as it was.
    pub fn rescan(&mut self)
        ensures
            final(self)@ == old(self)@.rescanned(),
            final(self)@.well_formed(),
    {
        proof {
            use_type_invariant(&*self);
        }
        let mut i: usize = MEMORY_SIZE;
        while i > 0
            invariant
                i <= MEMORY_SIZE,
                self == old(self),
                last_nonzero(self.ram@, MEMORY_SIZE as int) == last_nonzero(self.ram@, i as int),
            decreases i,
        {
            i -= 1;
            if self.ram[i] != 0 {
                proof {
                    use_type_invariant(&*self);
                }
                let above: usize = (i + 1) + 3;
                let end: usize = above & !3usize;
                assert(end == above / 4 * 4) by (bit_vector)
                    requires
                        end == above & !3usize,
                ;
                self.last_instruction_index = end;
                return ;
            }
        }
    }

    /// The word at `offset`, or 0 where no whole word starts there.
    pub fn peek(&self, offset: usize) -> (word: i32)
        ensures
            word == self@.peek(offset as int),
            self@.well_formed(),
    {
        proof {
            use_type_invariant(self);
        }
        if offset > LAST_WORD {
            0
        } else {
            let w: u32 = word_from_bytes(
                self.ram[offset],
                self.ram[offset + 1],
                self.ram[offset + 2],
                self.ram[offset + 3],
            );
            signed_of(w)
        }
    }

    /// Exchanges the single bytes at `from` and `to`.
    pub fn swap(&mut self, from: usize, to: usize)
        requires
            from < MEMORY_SIZE,
            to < MEMORY_SIZE,
        ensures
            final(self)@ == old(self)@.swap(from as int, to as int),
            final(self)@.well_formed(),
    {
        proof {
            use_type_invariant(&*self);
        }
        let temp: u8 = self.ram[from];
        self.ram[from] = self.ram[to];
        self.ram[to] = temp;
    }

    /// Sets the stack pointer to `value`, or to the top of memory where
    /// `value` lies above it.
    pub fn sp_jump(&mut self, value: usize)
        ensures
            final(self)@ == old(self)@.sp_jump(value as int),
            final(self)@.well_formed(),
    {
        proof {
            use_type_invariant(&*self);
        }
        if value > MEMORY_SIZE {
            self.stack_pointer = MEMORY_SIZE;
        } else {
            self.stack_pointer = value;
        }
    }

    /// Moves the stack pointer up by one word, no further than the top of
    /// memory.
    pub fn sp_increment(&mut self)
        ensures
            final(self)@ == old(self)@.sp_jump(old(self)@.sp + 4),
            final(self)@.well_formed(),
    {
        proof {
            use_type_invariant(&*self);
        }
        let next: usize = self.stack_pointer + 4;
        self.sp_jump(next);
    }

    /// Moves the stack pointer down by one word.
    pub fn sp_decrement(&mut self)
        requires
            old(self)@.sp >= 4,
        ensures
            final(self)@ == old(self)@.with_sp(old(self)@.sp - 4),
            final(self)@.well_formed(),
    {
        proof {
            use_type_invariant(&*self);
        }
        self.stack_pointer = self.stack_pointer - 4;
    }

    /// Sets the program counter to `value`, whatever it is.
    pub fn pc_jump(&mut self, value: usize)
        ensures
            final(self)@ == old(self)@.with_pc(value as int),
            final(self)@.well_formed(),
    {
        proof {
            use_type_invariant(&*self);
        }
        self.program_counter = value;
    }

    /// Moves the program counter on by one word, no further than the top of
    /// memory.
    pub fn pc_increment(&mut self)
        ensures
            final(self)@ == old(self)@.pc_increment(),
            final(self)@.well_formed(),
    {
        proof {
            use_type_invariant(&*self);
        }
        if self.program_counter > LAST_WORD {
            self.program_counter = MEMORY_SIZE;
        } else {
            self.program_counter = self.program_counter + 4;
        }
    }

    /// Pushes `value`: moves the stack pointer down by one word and writes
    /// there what stands for `value`.
    pub fn stack_push(&mut self, value: i32)
        requires
            old(self)@.can_push(),
        ensures
            final(self)@ == old(self)@.push(value),
            final(self)@.well_formed(),
    {
        proof {
            use_type_invariant(&*self);
        }
        self.sp_decrement();
        let raw: u32 = unsigned_of(value);
        let extended: u32 = if raw & (1u32 << 27) != 0 {
            raw | 0xF000_0000
        } else {
            raw
        };
        assert(extended == to_unsigned(stored_word(value))) by {
            assert((raw & (1u32 << 27) != 0) == (raw / 0x800_0000 % 2 == 1)) by (bit_vector);
            assert(raw | 0xF000_0000 == raw % 0x1000_0000 + 0xF000_0000) by (bit_vector);
        }
        let bytes: [u8; 4] = word_to_bytes(extended);
        let sp: usize = self.stack_pointer;
        self.ram[sp] = bytes[0];
        self.ram[sp + 1] = bytes[1];
        self.ram[sp + 2] = bytes[2];
        self.ram[sp + 3] = bytes[3];
    }

    /// Pops the top word: reads it and moves the stack pointer up by one
    /// word.
    pub fn stack_pop(&mut self) -> (value: i32)
        requires
            old(self)@.can_pop(),
        ensures
            value == old(self)@.top(),
            final(self)@ == old(self)@.pop(),
            final(self)@.well_formed(),
    {
        let value: i32 = self.peek(self.stack_pointer);
        self.sp_increment();
        value
    }
}

} // verus!
