use brainfuck::tape::{
    ArrayTape, Error, GarbledTape, Mod256ArrayTape, ModArrayTape, Tape, VecTape, TAPE_LENGTH,
};

#[test]
fn tape_new() {
    let _ = VecTape::new();
}

#[test]
fn tape_deref() {
    let tape = VecTape::new();
    assert_eq!(tape.get(), 0);
}

#[test]
fn tape_deref_mut() {
    let mut tape = VecTape::new();
    tape.set(20);
    assert_eq!(tape.get(), 20);
}

#[test]
fn add_assign() {
    let mut tape = VecTape::new();
    tape.set(5);
    tape.inc_val().unwrap();
    assert_eq!(tape.get(), 6);
}

#[test]
fn sub_assign() {
    let mut tape = VecTape::new();
    tape.set(5);
    tape.dec_val().unwrap();
    assert_eq!(tape.get(), 4);
}

#[test]
fn shr_assign() {
    let mut tape = VecTape::new();
    tape.set(4);
    tape.inc_ptr().unwrap();
    assert_eq!(tape.get(), 0);
}

#[test]
fn shl_assign() {
    let mut tape = VecTape::new();
    tape.set(4);
    tape.inc_ptr().unwrap();
    assert_eq!(tape.get(), 0);
    tape.dec_ptr().unwrap();
    assert_eq!(tape.get(), 4);
}

fn basic_ops<T: Tape + Default>() {
    let mut tape = T::default();
    assert_eq!(tape.get(), 0);
    tape.set(20);
    assert_eq!(tape.inc_val(), Ok(21));
    assert_eq!(tape.get(), 21);
    assert_eq!(tape.dec_val(), Ok(20));
    assert_eq!(tape.dec_val(), Ok(19));
    assert_eq!(tape.inc_ptr(), Ok(1));
    assert_eq!(tape.get(), 0);
    assert_eq!(tape.dec_ptr(), Ok(0));
    assert_eq!(tape.get(), 19);
}

#[test]
fn every_tape_basic_ops() {
    basic_ops::<ArrayTape>();
    basic_ops::<VecTape>();
    basic_ops::<ModArrayTape>();
    basic_ops::<Mod256ArrayTape>();
    basic_ops::<GarbledTape>();
}

fn pointer_bounds<T: Tape + Default>() {
    let mut tape = T::default();
    for i in 1..TAPE_LENGTH {
        assert_eq!(tape.inc_ptr(), Ok(i));
    }
    assert_eq!(tape.inc_ptr(), Err(Error::PtrOverflow));
    assert_eq!(tape.get(), 0);
    let mut tape = T::default();
    assert_eq!(tape.dec_ptr(), Err(Error::PtrUnderflow));
}

fn value_bounds<T: Tape + Default>() {
    let mut tape = T::default();
    for v in 1..=255u8 {
        assert_eq!(tape.inc_val(), Ok(v));
    }
    assert_eq!(tape.inc_val(), Err(Error::ValOverflow));
    assert_eq!(tape.get(), 255);
    let mut tape = T::default();
    assert_eq!(tape.dec_val(), Err(Error::ValUnderflow));
    assert_eq!(tape.get(), 0);
}

#[test]
fn checked_tapes_fail_at_the_bounds() {
    pointer_bounds::<ArrayTape>();
    pointer_bounds::<VecTape>();
    pointer_bounds::<Mod256ArrayTape>();
    pointer_bounds::<GarbledTape>();
    value_bounds::<ArrayTape>();
    value_bounds::<VecTape>();
    value_bounds::<GarbledTape>();
}

#[test]
fn the_last_pointer_move_fails() {
    let mut tape = ArrayTape::default();
    let mut failures = 0;
    let mut last_failed = false;
    for _ in 0..TAPE_LENGTH {
        last_failed = tape.inc_ptr().is_err();
        if last_failed {
            failures += 1;
        }
    }
    assert_eq!(failures, 1);
    assert!(last_failed);
}

#[test]
fn the_256th_increment_fails() {
    let mut tape = ArrayTape::default();
    for _ in 0..255 {
        tape.inc_val().unwrap();
    }
    assert_eq!(tape.inc_val(), Err(Error::ValOverflow));
}

#[test]
fn wrapping_tape_wraps() {
    let mut tape = ModArrayTape::default();
    assert_eq!(tape.dec_val(), Ok(255));
    assert_eq!(tape.inc_val(), Ok(0));
    assert_eq!(tape.dec_ptr(), Ok(TAPE_LENGTH - 1));
    tape.set(9);
    assert_eq!(tape.inc_ptr(), Ok(0));
    assert_eq!(tape.dec_ptr(), Ok(TAPE_LENGTH - 1));
    assert_eq!(tape.get(), 9);
}

#[test]
fn mod256_tape_wraps_values_only() {
    let mut tape = Mod256ArrayTape::default();
    assert_eq!(tape.dec_val(), Ok(255));
    assert_eq!(tape.inc_val(), Ok(0));
    assert_eq!(tape.dec_ptr(), Err(Error::PtrUnderflow));
}

#[test]
fn vec_tape_grows_with_zero_cells() {
    let mut tape = VecTape::default();
    tape.set(3);
    assert_eq!(tape.inc_ptr(), Ok(1));
    assert_eq!(tape.inc_ptr(), Ok(2));
    assert_eq!(tape.get(), 0);
    tape.set(7);
    assert_eq!(tape.dec_ptr(), Ok(1));
    assert_eq!(tape.get(), 0);
    assert_eq!(tape.dec_ptr(), Ok(0));
    assert_eq!(tape.get(), 3);
    assert_eq!(tape.inc_ptr(), Ok(1));
    assert_eq!(tape.inc_ptr(), Ok(2));
    assert_eq!(tape.get(), 7);
}
