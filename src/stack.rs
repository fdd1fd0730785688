use vstd::prelude::*;
use crate::error::MachineError;

verus! {

/// Number of entries the call stack can hold.
pub const STACK_SIZE: usize = 48;

/// Fixed-capacity last-in-first-out store of bytes.
pub struct Stack {
    data: Vec<u8>,
}

impl View for Stack {
    type V = Seq<u8>;

    /// The stored entries, the most recent last.
    closed spec fn view(&self) -> Seq<u8> {
        self.data@
    }
}

impl Stack {
    /// The stack holds no more than its capacity.
    pub open spec fn well_formed(&self) -> bool {
        self@.len() <= STACK_SIZE
    }

    /// An empty stack.
    pub fn new() -> (r: Self)
        ensures
            r.well_formed(),
            r@ == Seq::<u8>::empty(),
    {
        Self { data: Vec::new() }
    }

    /// Number of entries held.
    pub fn len(&self) -> (r: usize)
        ensures
            r == self@.len(),
    {
        self.data.len()
    }

    /// Stores `byte` on top, or reports `StackOverflow` and leaves the stack
    /// as it was when it is full.
    pub fn push(&mut self, byte: u8) -> (r: Result<(), MachineError>)
        requires
            old(self).well_formed(),
        ensures
            final(self).well_formed(),
            old(self)@.len() < STACK_SIZE ==> r == Ok::<(), MachineError>(()) && final(self)@
                == old(self)@.push(byte),
            old(self)@.len() >= STACK_SIZE ==> r == Err::<(), MachineError>(
                MachineError::StackOverflow,
            ) && final(self)@ == old(self)@,
    {
        if self.data.len() >= STACK_SIZE {
            return Err(MachineError::StackOverflow);
        }
        self.data.push(byte);
        Ok(())
    }

    /// Removes and returns the most recently pushed byte; `None` when empty.
    pub fn pop(&mut self) -> (r: Option<u8>)
        requires
            old(self).well_formed(),
        ensures
            final(self).well_formed(),
            old(self)@.len() == 0 ==> r == None::<u8> && final(self)@ == old(self)@,
            old(self)@.len() > 0 ==> r == Some(old(self)@.last()) && final(self)@ == old(
                self,
            )@.drop_last(),
    {
        self.data.pop()
    }
}

/// Pushing a byte and then popping gives that byte back and leaves the stack
/// as it was before the push: the stack is last-in-first-out.
pub proof fn lemma_push_then_pop(entries: Seq<u8>, byte: u8)
    ensures
        entries.push(byte).len() > 0,
        entries.push(byte).last() == byte,
        entries.push(byte).drop_last() == entries,
{
    assert(entries.push(byte).drop_last() =~= entries);
}

} // verus!
