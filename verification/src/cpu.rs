//! The processor shell: the console's central execution unit.
//!
//! A `Processor` takes exclusive ownership of one [`Memory`] and starts
//! with its program counter reset. Opcode decoding and execution are not
//! part of this core yet: a [`Processor::step`] fetches the byte at the
//! program counter and reports whether the machine is still running, and
//! an external loop drives it until it halts.

use vstd::prelude::*;

use crate::memory::Memory;

verus! {

/// Where the processor stands in its lifecycle.
#[derive(Clone, Copy, Debug, PartialEq, Eq, Structural)]
pub enum ProcessorState {
    /// Freshly constructed; no fetch has happened yet.
    Ready,
    /// At least one fetch succeeded and no fault has occurred.
    Running,
    /// Terminal: a fetch faulted. No further step leaves this state.
    Halted,
}

/// The console's central execution unit. Owns the memory store it will
/// eventually execute instructions against.
pub struct Processor {
    pc: u16,
    state: ProcessorState,
    memory: Memory,
}

impl Processor {
    /// The address of the next instruction to fetch.
    pub closed spec fn spec_program_counter(&self) -> u16 {
        self.pc
    }

    /// The bytes of the owned memory store.
    pub closed spec fn spec_memory(&self) -> Seq<u8> {
        self.memory@
    }

    /// Where the processor stands in its lifecycle.
    pub closed spec fn spec_state(&self) -> ProcessorState {
        self.state
    }

    /// Construct a processor that owns `memory`, with the program
    /// counter reset to zero. Always succeeds, whatever the store holds.
    pub fn new(memory: Memory) -> (r: Processor)
        ensures
            r.spec_program_counter() == 0,
            r.spec_state() == ProcessorState::Ready,
            r.spec_memory() == memory@,
    {
        Processor { pc: 0, state: ProcessorState::Ready, memory }
    }

    /// The program counter register.
    pub fn program_counter(&self) -> (r: u16)
        ensures
            r == self.spec_program_counter(),
    {
        self.pc
    }

    /// Where the processor stands in its lifecycle.
    pub fn state(&self) -> (r: ProcessorState)
        ensures
            r == self.spec_state(),
    {
        self.state
    }

    /// The owned memory store.
    pub fn memory(&self) -> (r: &Memory)
        ensures
            r@ == self.spec_memory(),
    {
        &self.memory
    }

    /// One cycle of the machine, meant to be driven by an external loop
    /// until it reports [`ProcessorState::Halted`].
    ///
    /// A step fetches the byte addressed by the program counter through
    /// the store's addressing transform. A successful fetch leaves the
    /// machine running; a fetch past the end of the store is a fault and
    /// halts it. No instruction set exists yet, so a fetched opcode has
    /// no effect and the program counter does not advance; a halted
    /// machine stays halted.
    pub fn step(&mut self) -> (r: ProcessorState)
        ensures
            r == final(self).spec_state(),
            final(self).spec_memory() == old(self).spec_memory(),
            final(self).spec_program_counter() == old(self).spec_program_counter(),
            final(self).spec_state() == (
                if old(self).spec_state() == ProcessorState::Halted {
                    ProcessorState::Halted
                } else if old(self).spec_program_counter() as int / 4 < old(self).spec_memory().len() {
                    ProcessorState::Running
                } else {
                    ProcessorState::Halted
                }
            ),
    {
        if self.state == ProcessorState::Halted {
            return ProcessorState::Halted;
        }
        match self.memory.read(self.pc) {
            Ok(_opcode) => {
                self.state = ProcessorState::Running;
                ProcessorState::Running
            },
            Err(_) => {
                self.state = ProcessorState::Halted;
                ProcessorState::Halted
            },
        }
    }
}

} // verus!
