use vstd::prelude::*;

verus! {

/// Why a program image was refused.  A refused load leaves the machine as it was.
#[derive(Clone, Copy, Debug, PartialEq, Eq, Structural)]
pub enum LoadError {
    /// The image holds no bytes at all.
    EmptyProgram,
    /// The image is longer than the memory above the program start.
    ProgramTooLarge,
}

/// Why a cycle could not be carried out.  A failed cycle leaves the machine as it was:
/// no register, no memory cell, no timer and no pixel has changed.
#[derive(Clone, Copy, Debug, PartialEq, Eq, Structural)]
pub enum StepError {
    /// The instruction fetch, a memory operand or a keypad operand lies outside
    /// the addressable range.
    AddressOutOfRange,
    /// A call was made with all sixteen stack slots in use.
    StackOverflow,
    /// A return was made with no call outstanding.
    StackUnderflow,
}

} // verus!
