use vstd::prelude::*;

verus! {

/// The three structural faults an instruction tick can report.
#[derive(Clone, Copy, Debug, PartialEq, Eq, Structural)]
pub enum Chip8Error {
    /// A memory access with an address at or past the end of memory.
    OutOfBoundsAccess,
    /// A return was executed with an empty call stack.
    StackUnderflow,
    /// A call was executed with the call stack already full.
    StackOverflow,
}

} // verus!
