use vstd::prelude::*;

verus! {

/// Conditions under which the machine cannot carry on as asked.
#[derive(Debug, Clone, Copy, PartialEq, Eq, Structural)]
pub enum MachineError {
    /// The program does not fit between the load address and the end of memory.
    ProgramLoadOverflow,
    /// A push onto a full call stack.
    StackOverflow,
    /// A return with an empty call stack.
    StackUnderflow,
    /// The decoded word has no handler.
    UnimplementedOpcode,
    /// The program counter does not address a whole instruction in memory.
    OutOfBoundsFetch,
    /// A block of memory that an instruction reads or writes runs past the end
    /// of memory.
    OutOfBoundsAccess,
    /// An instruction would write below the load address, where the font lives.
    ReservedMemoryWrite,
}

} // verus!
