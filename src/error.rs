use vstd::prelude::*;
use crate::{program, tape};

verus! {

/// Everything that can stop a program from loading or running.
#[derive(Copy, Clone, Debug, PartialEq, Eq, Structural)]
pub enum Error {
    /// The tape refused an operation.
    Tape(tape::Error),
    /// The source text was not a valid program.
    Program(program::Error),
    /// A step was attempted with no program loaded.
    NoProgram,
    /// The interpreter reached its cycle limit.
    CycleLimit,
}

} // verus!
