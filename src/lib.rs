//! A brainfuck interpreter whose loader and execution engine are verified.
//!
//! Source text is compiled by [`program::Program::parse`] into a flat list of
//! instructions whose brackets carry the index of their partner, and an
//! [`Interpreter`] runs that list against a [`tape::Tape`] with a cycle limit.
use vstd::prelude::*;

pub mod error;
pub mod instruction;
pub mod interpreter;
pub mod program;
pub mod tape;

pub use error::Error;
pub use instruction::Instruction;
pub use interpreter::Interpreter;

use crate::interpreter::{fresh, ran};
use crate::program::{Program, balanced, depth, first_unmatched_close, render, symbols, well_formed};
use crate::tape::VecTape;

verus! {

/// The number of steps an interpreter takes before it stops with
/// `Error::CycleLimit`, unless it was given another limit.
pub const CYCLE_LIMIT: u64 = 10000000;

/// Parse `source` and run it on a `VecTape` with the default cycle limit,
/// reading from `input`; on success, the bytes it wrote.
pub fn eval_string(source: &str, input: Vec<u8>) -> (r: Result<Vec<u8>, Error>)
    ensures
        match first_unmatched_close(symbols(source@)) {
            Some(k) => r == Err::<Vec<u8>, Error>(
                Error::Program(program::Error::MissingOpenBracket(k as usize)),
            ),
            None => depth(symbols(source@)) > 0 ==> r == Err::<Vec<u8>, Error>(
                Error::Program(program::Error::MissingCloseBracket(depth(symbols(source@)) as usize)),
            ),
        },
        balanced(symbols(source@)) ==> forall|p: Seq<Instruction>|
            well_formed(p) && render(p) == symbols(source@) ==> {
                let (m, res) = #[trigger] ran::<VecTape>(fresh(p, input@, Seq::empty()));
                match res {
                    Ok(_) => r is Ok && r->Ok_0@ == m.output->0,
                    Err(e) => r == Err::<Vec<u8>, Error>(e),
                }
            },
{
    let program = match Program::parse(source) {
        Ok(p) => p,
        Err(e) => return Err(Error::Program(e)),
    };
    let ghost parsed = program@;
    proof {
        assert forall|p: Seq<Instruction>| well_formed(p) && render(p) == symbols(source@) implies p
            == parsed by {
            crate::program::lemma_render_symbols(parsed);
            crate::program::lemma_round_trip(parsed, p);
        }
    }
    let mut interp: Interpreter<VecTape> = Interpreter::new(program, input, Vec::new());
    assert(interp@ == fresh(parsed, input@, Seq::empty()));
    proof {
        crate::interpreter::lemma_ran_keeps_sink::<VecTape>(interp@);
    }
    let res = interp.run();
    let out = interp.take_output();
    let r = match res {
        Ok(_) => match out {
            Some(o) => Ok(o),
            None => Ok(Vec::new()),
        },
        Err(e) => Err(e),
    };
    proof {
        assert forall|p: Seq<Instruction>|
            well_formed(p) && render(p) == symbols(source@) implies {
            let (m, res) = #[trigger] ran::<VecTape>(fresh(p, input@, Seq::empty()));
            match res {
                Ok(_) => r is Ok && r->Ok_0@ == m.output->0,
                Err(e) => r == Err::<Vec<u8>, Error>(e),
            }
        } by {
            assert(p == parsed);
        }
    }
    r
}

} // verus!
