use brainfuck::program::Program;
use brainfuck::tape::{Tape, VecTape};
use brainfuck::{Error, Instruction, Interpreter};

#[test]
fn interpreter_new() {
    let program = Program::parse("++>+.").unwrap();
    let reader: Vec<u8> = Vec::new();
    let writer = Vec::<u8>::new();
    let _ = Interpreter::<VecTape>::new(program, reader, writer);
}

#[test]
fn load() {
    let program = Program::parse("++>+.");
    let mut interp = Interpreter::<VecTape>::default();
    interp.load(program.unwrap());
}

#[test]
fn run() {
    let program = Program::parse("++>+.");
    let mut interp = Interpreter::<VecTape>::default();
    interp.load(program.unwrap());
    assert!(interp.run().is_ok());
}

#[test]
fn run_with_callback() {
    let program = Program::parse("++>+.");
    let mut interp = Interpreter::<VecTape>::default();
    interp.load(program.unwrap());
    let mut count = 0;
    assert!(interp
        .run_with_callback(|_, _| {
            count = count + 1
        })
        .is_ok());
    assert_eq!(count, 5);
}

#[test]
fn step() {
    let program = Program::parse("++>+.");
    let mut interp = Interpreter::<VecTape>::default();
    interp.load(program.unwrap());
    let result = interp.step();
    assert!(result.is_ok());
    let run = result.unwrap();
    assert!(run.is_some());
    assert_eq!(run.unwrap(), Instruction::IncVal);
}

#[test]
fn execute() {
    let mut interp = Interpreter::<VecTape>::default();
    let instruction = Instruction::IncVal;
    let result = interp.execute(instruction);
    assert!(result.is_ok());
}

#[test]
fn single_step() {
    let program = Program::parse(">");
    let mut interp = Interpreter::<VecTape>::default();
    interp.load(program.unwrap());
    interp.step().unwrap().unwrap();
}

#[test]
fn empty_io() {
    let reader: Vec<u8> = Vec::new();
    let writer = Vec::<u8>::new();
    let program = Program::parse("+,.");
    let mut interp = Interpreter::<VecTape>::default();
    interp.read_from(reader);
    interp.write_to(writer);
    interp.load(program.unwrap());
    interp.run().unwrap();
    assert_eq!(interp.take_output().unwrap(), [1]);
}

#[test]
fn output_of_second_cell() {
    let program = Program::parse("++>+.").unwrap();
    let mut interp = Interpreter::<VecTape>::new(program, Vec::new(), Vec::new());
    interp.run().unwrap();
    assert_eq!(interp.take_output().unwrap(), vec![1]);
}

#[test]
fn input_is_read_into_the_cell() {
    let program = Program::parse(",+.,.").unwrap();
    let mut interp = Interpreter::<VecTape>::new(program, vec![7, 40], Vec::new());
    interp.run().unwrap();
    assert_eq!(interp.take_output().unwrap(), vec![8, 40]);
}

#[test]
fn output_without_sink_is_ignored() {
    let program = Program::parse("+.").unwrap();
    let mut interp = Interpreter::<VecTape>::default();
    interp.load(program);
    assert!(interp.run().is_ok());
    assert!(interp.take_output().is_none());
}

#[test]
fn input_without_source_is_ignored() {
    let program = Program::parse("+,.").unwrap();
    let mut interp = Interpreter::<VecTape>::default();
    interp.write_to(Vec::new());
    interp.load(program);
    interp.run().unwrap();
    assert_eq!(interp.take_output().unwrap(), vec![1]);
}

#[test]
fn step_without_program() {
    let mut interp = Interpreter::<VecTape>::default();
    assert_eq!(interp.step(), Err(Error::NoProgram));
    assert_eq!(interp.run(), Err(Error::NoProgram));
}

#[test]
fn step_past_the_end() {
    let program = Program::parse("+").unwrap();
    let mut interp = Interpreter::<VecTape>::default();
    interp.load(program);
    assert_eq!(interp.step(), Ok(Some(Instruction::IncVal)));
    assert_eq!(interp.step(), Ok(None));
    assert_eq!(interp.cycles(), 1);
}

#[test]
fn loop_runs_until_cell_is_zero() {
    // 3 times: add 2 to the next cell
    let program = Program::parse("+++[>++<-]>.").unwrap();
    let mut interp = Interpreter::<VecTape>::new(program, Vec::new(), Vec::new());
    interp.run().unwrap();
    assert_eq!(interp.take_output().unwrap(), vec![6]);
}

#[test]
fn skip_forward_over_loop_on_zero() {
    let program = Program::parse("[+.]+.").unwrap();
    let mut interp = Interpreter::<VecTape>::new(program, Vec::new(), Vec::new());
    interp.run().unwrap();
    assert_eq!(interp.take_output().unwrap(), vec![1]);
    assert_eq!(interp.pc(), 6);
}

#[test]
fn tape_error_stops_run() {
    let program = Program::parse("+<").unwrap();
    let mut interp = Interpreter::<VecTape>::default();
    interp.load(program);
    assert_eq!(interp.run(), Err(Error::Tape(brainfuck::tape::Error::PtrUnderflow)));
    assert_eq!(interp.cycles(), 1);
    assert_eq!(interp.pc(), 1);
}

#[test]
fn value_underflow_stops_run() {
    let program = Program::parse("-").unwrap();
    let mut interp = Interpreter::<VecTape>::default();
    interp.load(program);
    assert_eq!(interp.run(), Err(Error::Tape(brainfuck::tape::Error::ValUnderflow)));
}

#[test]
fn hook_is_not_called_for_failing_step() {
    let program = Program::parse("+>-").unwrap();
    let mut interp = Interpreter::<VecTape>::default();
    interp.load(program);
    let mut seen: Vec<Instruction> = Vec::new();
    let r = interp.run_with_callback(|t, i| {
        let _ = t.get();
        seen.push(*i)
    });
    assert_eq!(r, Err(Error::Tape(brainfuck::tape::Error::ValUnderflow)));
    assert_eq!(seen, vec![Instruction::IncVal, Instruction::IncPtr]);
}

#[test]
fn cycle_limit_stops_infinite_loop() {
    let program = Program::parse("+[]").unwrap();
    let mut interp = Interpreter::<VecTape>::default();
    interp.load(program);
    interp.set_cycle_limit(1000);
    assert_eq!(interp.run(), Err(Error::CycleLimit));
    assert_eq!(interp.cycles(), 1000);
}

#[test]
fn cycle_limit_default_ceiling() {
    let program = Program::parse("+[]").unwrap();
    let mut interp = Interpreter::<VecTape>::default();
    interp.load(program);
    assert_eq!(interp.run(), Err(Error::CycleLimit));
    assert_eq!(interp.cycles(), brainfuck::CYCLE_LIMIT);
}

#[test]
fn reload_keeps_tape_and_cycles() {
    let mut interp = Interpreter::<VecTape>::default();
    interp.write_to(Vec::new());
    interp.load(Program::parse("+++").unwrap());
    interp.run().unwrap();
    interp.load(Program::parse(".").unwrap());
    interp.run().unwrap();
    assert_eq!(interp.take_output().unwrap(), vec![3]);
    assert_eq!(interp.cycles(), 4);
    assert_eq!(interp.tape().get(), 3);
}

#[test]
fn eval_string_outputs() {
    assert_eq!(brainfuck::eval_string("++>+.", Vec::new()), Ok(vec![1]));
    assert_eq!(brainfuck::eval_string("+,.", Vec::new()), Ok(vec![1]));
    assert_eq!(brainfuck::eval_string(",.", vec![65]), Ok(vec![65]));
}

#[test]
fn eval_string_errors() {
    assert_eq!(
        brainfuck::eval_string("+]", Vec::new()),
        Err(Error::Program(brainfuck::program::Error::MissingOpenBracket(1)))
    );
    assert_eq!(
        brainfuck::eval_string("[[", Vec::new()),
        Err(Error::Program(brainfuck::program::Error::MissingCloseBracket(2)))
    );
    assert_eq!(
        brainfuck::eval_string("<", Vec::new()),
        Err(Error::Tape(brainfuck::tape::Error::PtrUnderflow))
    );
}
