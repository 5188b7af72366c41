use brainfuck::program::{Error, Program};
use brainfuck::Instruction;

#[test]
fn equal_brackets() {
    let program = Program::parse("[[]]");
    assert!(program.is_ok());
}

#[test]
fn more_open_brackets() {
    let program = Program::parse("[[[]]");
    assert!(program.is_err());
}

#[test]
fn more_close_brackets() {
    let program = Program::parse("[[]]]");
    assert!(program.is_err());
}

#[test]
fn brackets_are_resolved() {
    let program = Program::parse("+[>[-]<-]").unwrap();
    assert_eq!(program.len(), 9);
    assert_eq!(program.get(1), Some(Instruction::SkipForward(8)));
    assert_eq!(program.get(3), Some(Instruction::SkipForward(5)));
    assert_eq!(program.get(5), Some(Instruction::SkipBackward(3)));
    assert_eq!(program.get(8), Some(Instruction::SkipBackward(1)));
    assert_eq!(program.get(9), None);
}

#[test]
fn comments_are_skipped() {
    let program = Program::parse("a+ b[c]\n.").unwrap();
    assert_eq!(program.len(), 4);
    assert_eq!(program.get(0), Some(Instruction::IncVal));
    assert_eq!(program.get(1), Some(Instruction::SkipForward(2)));
    assert_eq!(program.get(2), Some(Instruction::SkipBackward(1)));
    assert_eq!(program.get(3), Some(Instruction::Output));
}

#[test]
fn all_symbols_parse() {
    let program = Program::parse("><+-.,[]").unwrap();
    let expected = [
        Instruction::IncPtr,
        Instruction::DecPtr,
        Instruction::IncVal,
        Instruction::DecVal,
        Instruction::Output,
        Instruction::Input,
        Instruction::SkipForward(7),
        Instruction::SkipBackward(6),
    ];
    for (i, e) in expected.iter().enumerate() {
        assert_eq!(program.get(i), Some(*e));
    }
}

#[test]
fn empty_source() {
    let program = Program::parse("no code here").unwrap();
    assert_eq!(program.len(), 0);
    assert_eq!(program.to_string(), "");
}

#[test]
fn missing_open_bracket_index() {
    assert_eq!(Program::parse("[[]]]").unwrap_err(), Error::MissingOpenBracket(4));
    assert_eq!(Program::parse("x]").unwrap_err(), Error::MissingOpenBracket(0));
    assert_eq!(Program::parse("+-]][").unwrap_err(), Error::MissingOpenBracket(2));
}

#[test]
fn missing_close_bracket_count() {
    assert_eq!(Program::parse("[[[]]").unwrap_err(), Error::MissingCloseBracket(1));
    assert_eq!(Program::parse("[[[").unwrap_err(), Error::MissingCloseBracket(3));
    assert_eq!(Program::parse("[][[+]").unwrap_err(), Error::MissingCloseBracket(1));
}

#[test]
fn render_drops_comments() {
    let program = Program::parse("add +[ loop - ] done.").unwrap();
    assert_eq!(program.to_string(), "+[-].");
}

#[test]
fn round_trip() {
    let source = "++[>+<-] comment >.[[-]>]";
    let first = Program::parse(source).unwrap();
    let text = first.to_string();
    let second = Program::parse(&text).unwrap();
    assert_eq!(first.len(), second.len());
    for i in 0..first.len() {
        assert_eq!(first.get(i), second.get(i));
    }
    assert_eq!(second.to_string(), text);
}

#[test]
fn symbols_render() {
    assert_eq!(Instruction::IncPtr.symbol(), '>');
    assert_eq!(Instruction::DecPtr.symbol(), '<');
    assert_eq!(Instruction::IncVal.symbol(), '+');
    assert_eq!(Instruction::DecVal.symbol(), '-');
    assert_eq!(Instruction::Output.symbol(), '.');
    assert_eq!(Instruction::Input.symbol(), ',');
    assert_eq!(Instruction::SkipForward(3).symbol(), '[');
    assert_eq!(Instruction::SkipBackward(0).symbol(), ']');
}
