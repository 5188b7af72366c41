use vstd::prelude::*;
use crate::error::Error;
use crate::instruction::Instruction;
use crate::program::{Program, well_formed};
use crate::tape::{self, Tape};
use crate::CYCLE_LIMIT;

verus! {

/// The state of an interpreter, as a value.
pub struct Machine {
    /// The loaded instructions, if any.
    pub program: Option<Seq<Instruction>>,
    /// The tape's cells.
    pub cells: Seq<u8>,
    /// The tape's pointer.
    pub ptr: int,
    /// The program counter: an index into the instructions.
    pub pc: int,
    /// Successful steps so far.
    pub cycles: int,
    /// The number of steps after which the interpreter stops.
    pub limit: int,
    /// The bytes that the attached source has yet to give, if one is attached.
    pub input: Option<Seq<u8>>,
    /// The bytes written to the attached sink, if one is attached.
    pub output: Option<Seq<u8>>,
}

/// The machine after executing `ins` at its program counter, or the error
/// that stops it (the machine is then left as it was).
pub open spec fn executed<T: Tape>(m: Machine, ins: Instruction) -> Result<Machine, Error> {
    let cur = m.cells[m.ptr];
    match ins {
        Instruction::IncPtr => match T::ptr_up(m.ptr) {
            Some(p) => Ok(Machine { ptr: p, pc: m.pc + 1, ..m }),
            None => Err(Error::Tape(tape::Error::PtrOverflow)),
        },
        Instruction::DecPtr => match T::ptr_down(m.ptr) {
            Some(p) => Ok(Machine { ptr: p, pc: m.pc + 1, ..m }),
            None => Err(Error::Tape(tape::Error::PtrUnderflow)),
        },
        Instruction::IncVal => match T::val_up(cur) {
            Some(v) => Ok(Machine { cells: m.cells.update(m.ptr, v), pc: m.pc + 1, ..m }),
            None => Err(Error::Tape(tape::Error::ValOverflow)),
        },
        Instruction::DecVal => match T::val_down(cur) {
            Some(v) => Ok(Machine { cells: m.cells.update(m.ptr, v), pc: m.pc + 1, ..m }),
            None => Err(Error::Tape(tape::Error::ValUnderflow)),
        },
        Instruction::Output => Ok(
            Machine {
                output: match m.output {
                    Some(o) => Some(o.push(cur)),
                    None => None,
                },
                pc: m.pc + 1,
                ..m
            },
        ),
        Instruction::Input => match m.input {
            Some(i) => if i.len() > 0 {
                Ok(
                    Machine {
                        cells: m.cells.update(m.ptr, i[0]),
                        input: Some(i.drop_first()),
                        pc: m.pc + 1,
                        ..m
                    },
                )
            } else {
                Ok(Machine { pc: m.pc + 1, ..m })
            },
            None => Ok(Machine { pc: m.pc + 1, ..m }),
        },
        Instruction::SkipForward(t) => Ok(
            Machine { pc: if cur == 0 { t + 1 } else { m.pc + 1 }, ..m },
        ),
        Instruction::SkipBackward(t) => Ok(
            Machine { pc: if cur != 0 { t + 1 } else { m.pc + 1 }, ..m },
        ),
    }
}

/// One step of the machine: the state after it and what the step returns.
///
/// The cycle limit is checked before anything else; then a program must be
/// loaded; a program counter past the end ends the run cleanly; otherwise
/// the instruction there is executed and, if that succeeds, counted.
pub open spec fn stepped<T: Tape>(m: Machine) -> (Machine, Result<Option<Instruction>, Error>) {
    if m.cycles >= m.limit {
        (m, Err(Error::CycleLimit))
    } else {
        match m.program {
            None => (m, Err(Error::NoProgram)),
            Some(p) => if m.pc >= p.len() {
                (m, Ok(None))
            } else {
                match executed::<T>(m, p[m.pc]) {
                    Ok(n) => (Machine { cycles: m.cycles + 1, ..n }, Ok(Some(p[m.pc]))),
                    Err(e) => (m, Err(e)),
                }
            },
        }
    }
}

/// The machine after stepping until the program ends or an error stops it,
/// and how the run ended.
pub open spec fn ran<T: Tape>(m: Machine) -> (Machine, Result<(), Error>)
    decreases m.limit - m.cycles,
{
    if m.cycles >= m.limit {
        (m, Err(Error::CycleLimit))
    } else {
        match m.program {
            None => (m, Err(Error::NoProgram)),
            Some(p) => if m.pc >= p.len() {
                (m, Ok(()))
            } else {
                match executed::<T>(m, p[m.pc]) {
                    Ok(n) => ran::<T>(
                        Machine { cycles: m.cycles + 1, limit: m.limit, ..n },
                    ),
                    Err(e) => (m, Err(e)),
                }
            },
        }
    }
}

/// Running never attaches or detaches a sink.
pub proof fn lemma_ran_keeps_sink<T: Tape>(m: Machine)
    ensures
        ran::<T>(m).0.output is Some <==> m.output is Some,
    decreases m.limit - m.cycles,
{
    if m.cycles < m.limit {
        if let Some(p) = m.program {
            if m.pc < p.len() {
                if let Ok(n) = executed::<T>(m, p[m.pc]) {
                    lemma_ran_keeps_sink::<T>(Machine { cycles: m.cycles + 1, limit: m.limit, ..n });
                }
            }
        }
    }
}

/// The machine that `Interpreter::new` builds.
pub open spec fn fresh(program: Seq<Instruction>, input: Seq<u8>, output: Seq<u8>) -> Machine {
    Machine {
        program: Some(program),
        cells: tape::zero_cells(),
        ptr: 0,
        pc: 0,
        cycles: 0,
        limit: CYCLE_LIMIT as int,
        input: Some(input),
        output: Some(output),
    }
}

/// The instructions of `+[]`: set the current cell, then loop on it forever.
pub open spec fn spin_program() -> Seq<Instruction> {
    seq![Instruction::IncVal, Instruction::SkipForward(2), Instruction::SkipBackward(1)]
}

proof fn lemma_spin_loop<T: Tape>(m: Machine)
    requires
        m.program == Some(spin_program()),
        m.pc == 1 || m.pc == 2,
        0 <= m.ptr < m.cells.len(),
        m.cells[m.ptr] != 0,
        m.cycles <= m.limit,
    ensures
        ran::<T>(m).1 == Err::<(), Error>(Error::CycleLimit),
        ran::<T>(m).0.cycles == m.limit,
    decreases m.limit - m.cycles,
{
    if m.cycles < m.limit {
        let p = spin_program();
        match executed::<T>(m, p[m.pc]) {
            Ok(n) => {
                lemma_spin_loop::<T>(Machine { cycles: m.cycles + 1, limit: m.limit, ..n });
            },
            Err(_) => {},
        }
    }
}

/// Running `+[]`, whose loop never makes its cell zero, stops with
/// `CycleLimit` once exactly `limit` steps have succeeded.
pub proof fn lemma_cycle_limit<T: Tape>(m: Machine)
    requires
        m.program == Some(spin_program()),
        m.pc == 0,
        m.cycles == 0,
        0 <= m.limit,
        0 <= m.ptr < m.cells.len(),
        m.cells[m.ptr] == 0,
        T::val_up(0) == Some(1u8),
    ensures
        ran::<T>(m).1 == Err::<(), Error>(Error::CycleLimit),
        ran::<T>(m).0.cycles == m.limit,
{
    if m.limit > 0 {
        let n = executed::<T>(m, Instruction::IncVal)->Ok_0;
        let next = Machine { cycles: 1, limit: m.limit, ..n };
        assert(next.cells[next.ptr] == 1u8);
        lemma_spin_loop::<T>(next);
    }
}

/// A brainfuck interpreter: a program, a tape, a program counter, a cycle
/// counter with its limit, and an optional byte source and byte sink.
pub struct Interpreter<T: Tape> {
    program: Option<Program>,
    tape: T,
    pc: usize,
    cycles: u64,
    limit: u64,
    source: Vec<u8>,
    read: usize,
    has_source: bool,
    sink: Vec<u8>,
    has_sink: bool,
}

impl<T: Tape> Default for Interpreter<T> {
    fn default() -> (r: Self)
        ensures
            r.wf(),
            r@ == (Machine {
                program: None,
                cells: tape::zero_cells(),
                ptr: 0,
                pc: 0,
                cycles: 0,
                limit: CYCLE_LIMIT as int,
                input: None,
                output: None,
            }),
    {
        Self::empty()
    }
}

impl<T: Tape> View for Interpreter<T> {
    type V = Machine;

    closed spec fn view(&self) -> Machine {
        Machine {
            program: match self.program {
                Some(p) => Some(p@),
                None => None,
            },
            cells: self.tape.cells(),
            ptr: self.tape.pointer(),
            pc: self.pc as int,
            cycles: self.cycles as int,
            limit: self.limit as int,
            input: if self.has_source {
                Some(self.source@.skip(self.read as int))
            } else {
                None
            },
            output: if self.has_sink {
                Some(self.sink@)
            } else {
                None
            },
        }
    }
}

impl<T: Tape> Interpreter<T> {
    /// The internal invariant of an interpreter.
    pub closed spec fn wf(&self) -> bool {
        &&& self.tape.wf()
        &&& self.read <= self.source@.len()
    }

    /// An interpreter with no program, a fresh tape, no source or sink, and
    /// the default cycle limit.
    pub fn empty() -> (r: Self)
        ensures
            r.wf(),
            r@ == (Machine {
                program: None,
                cells: tape::zero_cells(),
                ptr: 0,
                pc: 0,
                cycles: 0,
                limit: CYCLE_LIMIT as int,
                input: None,
                output: None,
            }),
    {
        Interpreter {
            program: None,
            tape: T::new(),
            pc: 0,
            cycles: 0,
            limit: CYCLE_LIMIT,
            source: Vec::new(),
            read: 0,
            has_source: false,
            sink: Vec::new(),
            has_sink: false,
        }
    }

    /// Execute one instruction at the current program counter, then move the
    /// program counter past it (past the jump target for a taken jump).
    pub fn execute(&mut self, instruction: Instruction) -> (r: Result<Instruction, Error>)
        requires
            old(self).wf(),
            old(self)@.pc < usize::MAX,
            match instruction {
                Instruction::SkipForward(t) => t < usize::MAX,
                Instruction::SkipBackward(t) => t < usize::MAX,
                _ => true,
            },
        ensures
            final(self).wf(),
            match executed::<T>(old(self)@, instruction) {
                Ok(m) => r == Ok::<Instruction, Error>(instruction) && final(self)@ == m,
                Err(e) => r == Err::<Instruction, Error>(e) && final(self)@ == old(self)@,
            },
    {
        match instruction {
            Instruction::IncPtr => {
                if let Err(e) = self.tape.inc_ptr() {
                    return Err(Error::Tape(e));
                }
            },
            Instruction::DecPtr => {
                if let Err(e) = self.tape.dec_ptr() {
                    return Err(Error::Tape(e));
                }
            },
            Instruction::IncVal => {
                if let Err(e) = self.tape.inc_val() {
                    return Err(Error::Tape(e));
                }
            },
            Instruction::DecVal => {
                if let Err(e) = self.tape.dec_val() {
                    return Err(Error::Tape(e));
                }
            },
            Instruction::Output => {
                if self.has_sink {
                    let b = self.tape.get();
                    self.sink.push(b);
                }
            },
            Instruction::Input => {
                if self.has_source && self.read < self.source.len() {
                    let b = self.source[self.read];
                    self.tape.set(b);
                    self.read = self.read + 1;
                    proof {
                        assert(self.source@.skip(self.read as int) =~= old(self).source@.skip(
                            old(self).read as int,
                        ).drop_first());
                    }
                }
            },
            Instruction::SkipForward(target) => {
                if self.tape.get() == 0 {
                    self.pc = target;
                }
            },
            Instruction::SkipBackward(target) => {
                if self.tape.get() != 0 {
                    self.pc = target;
                }
            },
        }
        self.pc = self.pc + 1;
        Ok(instruction)
    }

    /// Fetch and execute the next instruction.
    ///
    /// Returns `Ok(None)` once the program counter is past the last
    /// instruction, `Err(CycleLimit)` when the cycle counter has reached the
    /// limit (checked first), and `Err(NoProgram)` when nothing is loaded.
    /// A successful step counts one cycle; a failed one changes nothing.
    pub fn step(&mut self) -> (r: Result<Option<Instruction>, Error>)
        requires
            old(self).wf(),
        ensures
            final(self).wf(),
            (final(self)@, r) == stepped::<T>(old(self)@),
    {
        if self.cycles >= self.limit {
            return Err(Error::CycleLimit);
        }
        let instruction = match &self.program {
            Some(p) => match p.get(self.pc) {
                Some(i) => {
                    proof {
                        assert(well_formed(p@));
                        assert(p@[self.pc as int] == i);
                    }
                    i
                },
                None => return Ok(None),
            },
            None => return Err(Error::NoProgram),
        };
        match self.execute(instruction) {
            Ok(_) => {
                self.cycles = self.cycles + 1;
                Ok(Some(instruction))
            },
            Err(e) => Err(e),
        }
    }

    /// Step like `run`, calling `hook` with the tape and the instruction
    /// after each successful step.
    pub fn run_with_callback<F>(&mut self, mut hook: F) -> (r: Result<(), Error>)
        where
            F: FnMut(&T, &Instruction),
        requires
            old(self).wf(),
            forall|t: &T, i: &Instruction| call_requires(hook, (t, i)),
        ensures
            final(self).wf(),
            (final(self)@, r) == ran::<T>(old(self)@),
    {
        loop
            invariant
                self.wf(),
                ran::<T>(self@) == ran::<T>(old(self)@),
                forall|t: &T, i: &Instruction| call_requires(hook, (t, i)),
            decreases self@.limit - self@.cycles,
        {
            match self.step() {
                Ok(Some(i)) => {
                    hook(&self.tape, &i);
                },
                Ok(None) => return Ok(()),
                Err(e) => return Err(e),
            }
        }
    }

    /// Attach `program` and set the program counter to its start. The tape,
    /// the cycle counter and the attached streams are kept.
    pub fn load(&mut self, program: Program)
        requires
            old(self).wf(),
        ensures
            final(self).wf(),
            final(self)@ == (Machine { program: Some(program@), pc: 0, ..old(self)@ }),
    {
        self.pc = 0;
        self.program = Some(program);
    }

    /// Read the `Input` instruction's bytes from `source`, from its start.
    pub fn read_from(&mut self, source: Vec<u8>)
        requires
            old(self).wf(),
        ensures
            final(self).wf(),
            final(self)@ == (Machine { input: Some(source@), ..old(self)@ }),
    {
        self.source = source;
        self.read = 0;
        self.has_source = true;
        proof {
            assert(self.source@.skip(0) =~= source@);
        }
    }

    /// Write the `Output` instruction's bytes to the end of `sink`.
    pub fn write_to(&mut self, sink: Vec<u8>)
        requires
            old(self).wf(),
        ensures
            final(self).wf(),
            final(self)@ == (Machine { output: Some(sink@), ..old(self)@ }),
    {
        self.sink = sink;
        self.has_sink = true;
    }

    /// Detach the sink and hand back what it holds.
    pub fn take_output(&mut self) -> (r: Option<Vec<u8>>)
        requires
            old(self).wf(),
        ensures
            final(self).wf(),
            final(self)@ == (Machine { output: None, ..old(self)@ }),
            match old(self)@.output {
                Some(o) => r is Some && r->0@ == o,
                None => r is None,
            },
    {
        if self.has_sink {
            let mut out: Vec<u8> = Vec::new();
            std::mem::swap(&mut out, &mut self.sink);
            self.has_sink = false;
            Some(out)
        } else {
            None
        }
    }

    /// Stop after `limit` successful steps instead.
    pub fn set_cycle_limit(&mut self, limit: u64)
        requires
            old(self).wf(),
        ensures
            final(self).wf(),
            final(self)@ == (Machine { limit: limit as int, ..old(self)@ }),
    {
        self.limit = limit;
    }

    /// An interpreter with `program` loaded, reading from `source` and
    /// writing to `sink`, with a fresh tape and the default cycle limit.
    pub fn new(program: Program, source: Vec<u8>, sink: Vec<u8>) -> (r: Self)
        ensures
            r.wf(),
            r@ == fresh(program@, source@, sink@),
    {
        let mut interp = Self::empty();
        interp.load(program);
        interp.read_from(source);
        interp.write_to(sink);
        interp
    }

    /// The instruction that the next step would execute, if any.
    pub fn next_instruction(&self) -> (r: Option<Instruction>)
        ensures
            r == (match self@.program {
                Some(p) => if self@.pc < p.len() {
                    Some(p[self@.pc])
                } else {
                    None
                },
                None => None,
            }),
    {
        match &self.program {
            Some(p) => p.get(self.pc),
            None => None,
        }
    }

    /// Successful steps so far.
    pub fn cycles(&self) -> (c: u64)
        ensures
            c == self@.cycles,
    {
        self.cycles
    }

    /// The program counter.
    pub fn pc(&self) -> (c: usize)
        ensures
            c == self@.pc,
    {
        self.pc
    }

    /// The tape.
    pub fn tape(&self) -> (t: &T)
        ensures
            t.cells() == self@.cells,
            t.pointer() == self@.ptr,
    {
        &self.tape
    }

    /// Step until the program ends (`Ok`) or a step fails (that error).
    pub fn run(&mut self) -> (r: Result<(), Error>)
        requires
            old(self).wf(),
        ensures
            final(self).wf(),
            (final(self)@, r) == ran::<T>(old(self)@),
    {
        loop
            invariant
                self.wf(),
                ran::<T>(self@) == ran::<T>(old(self)@),
            decreases self@.limit - self@.cycles,
        {
            let ghost before = self@;
            match self.step() {
                Ok(Some(_)) => {},
                Ok(None) => return Ok(()),
                Err(e) => return Err(e),
            }
        }
    }
}

} // verus!
