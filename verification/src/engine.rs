//! The fetch-decode-execute loop: one step of it, and a run of many.
//!
//! The machine does no reading and no writing of its own. A step hands the
//! text that an instruction writes back to its caller, and asks its caller
//! for the line that an instruction reads. An instruction that cannot be
//! carried out halts the machine where it stands, as does the end of the
//! program; what becomes of a halted machine is its caller's to decide.

use crate::instruction::{decode, Fault, Instruction};
use crate::machine::{Machine, MachineState, MEMORY_SIZE};
use vstd::prelude::*;

verus! {

/// Why a machine stopped for good.
#[derive(Clone, Copy, Debug, PartialEq, Eq)]
pub enum Halt {
    /// An `Exit` instruction, with the first byte of its word as status.
    Exited(u8),
    /// The stack has come down to the code boundary.
    StackOverrun,
    /// The program counter has come up to the code boundary.
    CodeOverrun,
    /// The next instruction cannot be carried out.
    Trapped(Fault),
}

/// What a step, or a run of steps, hands back to its caller.
#[derive(Debug, PartialEq, Eq)]
pub enum Event {
    /// Nothing to report: the machine can go on.
    Continue,
    /// An instruction wrote this text; it is to be written out before the
    /// machine goes on.
    Output(Vec<char>),
    /// The word at this address encodes no instruction and was skipped.
    Unrecognized(usize),
    /// The next instruction reads a line of input, and none was given. The
    /// machine has not moved.
    NeedsLine,
    /// The machine has stopped. It has not moved, and will stop again in the
    /// same way.
    Halted(Halt),
}

/// An event as mathematics.
pub enum EventView {
    Continue,
    Output(Seq<char>),
    Unrecognized(int),
    NeedsLine,
    Halted(Halt),
}

impl View for Event {
    type V = EventView;

    open spec fn view(&self) -> EventView {
        match *self {
            Event::Continue => EventView::Continue,
            Event::Output(text) => EventView::Output(text@),
            Event::Unrecognized(addr) => EventView::Unrecognized(addr as int),
            Event::NeedsLine => EventView::NeedsLine,
            Event::Halted(halt) => EventView::Halted(halt),
        }
    }
}

impl MachineState {
    /// The four bytes at the program counter.
    pub open spec fn fetch(self) -> Seq<u8> {
        self.ram.subrange(self.pc, self.pc + 4)
    }

    /// Why the machine stops before its next instruction, if it does: the
    /// stack is checked first, then the program counter, then whether a
    /// whole word lies at the program counter.
    pub open spec fn halted(self) -> Option<Halt> {
        if self.sp <= self.boundary {
            Some(Halt::StackOverrun)
        } else if self.pc >= self.boundary {
            Some(Halt::CodeOverrun)
        } else if self.pc + 4 > MEMORY_SIZE {
            Some(Halt::Trapped(Fault::AddressOutOfRange))
        } else {
            None
        }
    }

    /// The state after `instruction` was carried out as the next of the
    /// program, with `line` as its input: the program counter goes on by one
    /// word unless the instruction has set it.
    pub open spec fn after(self, instruction: Instruction, line: Seq<char>) -> MachineState {
        let next = instruction.effect(self, line);
        if instruction.sets_pc() {
            next
        } else {
            next.pc_increment()
        }
    }

    /// One step: the state it leaves and the event it reports. A line is
    /// used only by an instruction that reads one.
    pub open spec fn step(self, line: Option<Seq<char>>) -> (MachineState, EventView) {
        match self.halted() {
            Some(halt) => (self, EventView::Halted(halt)),
            None => match decode(self.fetch()) {
                None => (self.pc_increment(), EventView::Unrecognized(self.pc)),
                Some(Instruction::Exit) => (self, EventView::Halted(Halt::Exited(self.ram[self.pc]))),
                Some(instruction) => match line {
                    None if instruction.needs_line() => (self, EventView::NeedsLine),
                    _ => {
                        let text = match line {
                            Some(text) => text,
                            None => Seq::empty(),
                        };
                        match instruction.fault(self, text) {
                            Some(fault) => (self, EventView::Halted(Halt::Trapped(fault))),
                            None => (
                                self.after(instruction, text),
                                if instruction.writes() {
                                    EventView::Output(instruction.output(self))
                                } else {
                                    EventView::Continue
                                },
                            ),
                        }
                    },
                },
            },
        }
    }

    /// A run of at most `budget` steps without input: it ends with the first
    /// event that is not `Continue`, or with `Continue` when the budget is
    /// used up.
    pub open spec fn run(self, budget: nat) -> (MachineState, EventView)
        decreases budget,
    {
        if budget == 0 {
            (self, EventView::Continue)
        } else {
            let (next, event) = self.step(None);
            if event is Continue {
                next.run((budget - 1) as nat)
            } else {
                (next, event)
            }
        }
    }
}

impl Instruction {
    /// Whether the instruction reads a line of input.
    pub fn reads_line(&self) -> (r: bool)
        ensures
            r == self.needs_line(),
    {
        match self {
            Instruction::Input | Instruction::StInput(_) => true,
            _ => false,
        }
    }

    /// Whether the instruction sets the program counter itself.
    pub fn branches(&self) -> (r: bool)
        ensures
            r == self.sets_pc(),
    {
        match self {
            Instruction::Goto(_)
            | Instruction::BinaryIf(_)
            | Instruction::UnaryIf(_)
            | Instruction::Return(_)
            | Instruction::Call(_) => true,
            _ => false,
        }
    }

    /// Whether the instruction writes text.
    pub fn prints(&self) -> (r: bool)
        ensures
            r == self.writes(),
    {
        match self {
            Instruction::Print(_, _) | Instruction::Dump | Instruction::StPrint(_) => true,
            _ => false,
        }
    }
}

impl Machine {
    /// Tells why the machine stops before its next instruction, if it does.
    pub fn halt(&self) -> (halt: Option<Halt>)
        ensures
            halt == self@.halted(),
    {
        let sp: usize = self.get_stack_pointer();
        let pc: usize = self.get_program_counter();
        let boundary: usize = self.get_boundary();
        if sp <= boundary {
            Some(Halt::StackOverrun)
        } else if pc >= boundary {
            Some(Halt::CodeOverrun)
        } else if pc + 4 > MEMORY_SIZE {
            Some(Halt::Trapped(Fault::AddressOutOfRange))
        } else {
            None
        }
    }

    /// Makes one step: stops where the machine has halted, else fetches the
    /// word at the program counter, decodes it and carries it out. `line` is
    /// the input for an instruction that reads one; without it such an
    /// instruction is not carried out, and `NeedsLine` asks for it.
    pub fn step(&mut self, line: Option<&[char]>) -> (event: Event)
        ensures
            (final(self)@, event@) == old(self)@.step(
                match line {
                    Some(text) => Some(text@),
                    None => None,
                },
            ),
    {
        if let Some(halt) = self.halt() {
            return Event::Halted(halt);
        }
        let pc: usize = self.get_program_counter();
        let word: [u8; 4] = [
            *self.get_byte(pc),
            *self.get_byte(pc + 1),
            *self.get_byte(pc + 2),
            *self.get_byte(pc + 3),
        ];
        assert(word@ =~= self@.fetch());
        let instruction: Instruction = match Instruction::decode_instruction(word.as_slice()) {
            Some(instruction) => instruction,
            None => {
                self.pc_increment();
                return Event::Unrecognized(pc);
            },
        };
        if let Instruction::Exit = instruction {
            return Event::Halted(Halt::Exited(word[0]));
        }
        let nothing: Vec<char> = Vec::new();
        let text: &[char] = match line {
            Some(text) => text,
            None => {
                if instruction.reads_line() {
                    return Event::NeedsLine;
                }
                nothing.as_slice()
            },
        };
        if let Some(fault) = instruction.trap(self, text) {
            return Event::Halted(Halt::Trapped(fault));
        }
        let output: Vec<char> = instruction.execute(self, text);
        if !instruction.branches() {
            self.pc_increment();
        }
        if instruction.prints() {
            Event::Output(output)
        } else {
            Event::Continue
        }
    }

    /// Goes on from where the machine stands, for at most `budget` steps and
    /// without input, up to the first event that is not `Continue`.
    pub fn resume(&mut self, budget: usize) -> (event: Event)
        ensures
            (final(self)@, event@) == old(self)@.run(budget as nat),
    {
        let mut left: usize = budget;
        while left > 0
            invariant
                self@.run(left as nat) == old(self)@.run(budget as nat),
            decreases left,
        {
            let event: Event = self.step(None);
            match event {
                Event::Continue => {
                    left -= 1;
                },
                other => {
                    return other;
                },
            }
        }
        Event::Continue
    }

    /// Runs the program in memory: finds the code boundary anew, then goes on
    /// as `resume` does. A run that has reported an event is taken up again
    /// with `resume`: a second `run` would find the boundary anew, and count
    /// what the stack holds by then as code.
    pub fn run(&mut self, budget: usize) -> (event: Event)
        ensures
            (final(self)@, event@) == old(self)@.rescanned().run(budget as nat),
    {
        self.rescan();
        self.resume(budget)
    }
}

} // verus!
