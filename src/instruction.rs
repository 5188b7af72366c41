use vstd::prelude::*;

verus! {

/// An executable instruction of the language.
///
/// The bracket instructions carry the index, in the instruction list, of
/// their matching partner: `SkipForward(t)` jumps to `t` when the current
/// cell is zero, `SkipBackward(t)` jumps to `t` when it is not.
#[derive(Copy, Clone, Debug, PartialEq, Eq, Hash, Structural)]
pub enum Instruction {
    /// Move the pointer one cell up the tape.
    IncPtr,
    /// Move the pointer one cell down the tape.
    DecPtr,
    /// Increment the value of the current cell.
    IncVal,
    /// Decrement the value of the current cell.
    DecVal,
    /// Write the current cell to the attached sink.
    Output,
    /// Read one byte from the attached source into the current cell.
    Input,
    /// Jump to the matching `]` when the current cell is zero.
    SkipForward(usize),
    /// Jump back to the matching `[` when the current cell is not zero.
    SkipBackward(usize),
}

/// The characters that stand for an instruction; every other one is a comment.
pub open spec fn is_symbol(c: char) -> bool {
    c == '>' || c == '<' || c == '+' || c == '-' || c == '.' || c == ',' || c == '[' || c == ']'
}

/// The one-character rendering of an instruction.
pub open spec fn symbol_of(i: Instruction) -> char {
    match i {
        Instruction::IncPtr => '>',
        Instruction::DecPtr => '<',
        Instruction::IncVal => '+',
        Instruction::DecVal => '-',
        Instruction::Output => '.',
        Instruction::Input => ',',
        Instruction::SkipForward(_) => '[',
        Instruction::SkipBackward(_) => ']',
    }
}

impl Instruction {
    /// The one-character rendering of this instruction.
    pub fn symbol(&self) -> (c: char)
        ensures
            c == symbol_of(*self),
    {
        match self {
            Instruction::IncPtr => '>',
            Instruction::DecPtr => '<',
            Instruction::IncVal => '+',
            Instruction::DecVal => '-',
            Instruction::Output => '.',
            Instruction::Input => ',',
            Instruction::SkipForward(_) => '[',
            Instruction::SkipBackward(_) => ']',
        }
    }
}

} // verus!
