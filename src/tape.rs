use vstd::prelude::*;

mod array_tape;
mod garbled_tape;
mod mod256_array_tape;
mod mod_array_tape;
mod vec_tape;

pub use array_tape::ArrayTape;
pub use garbled_tape::GarbledTape;
pub use mod256_array_tape::Mod256ArrayTape;
pub use mod_array_tape::ModArrayTape;
pub use vec_tape::VecTape;

verus! {

/// The number of cells of a tape.
pub const TAPE_LENGTH: usize = 30000;

/// Why a tape operation was refused.
#[derive(Copy, Clone, Debug, PartialEq, Eq, Structural)]
pub enum Error {
    /// The current cell would go above 255.
    ValOverflow,
    /// The current cell would go below 0.
    ValUnderflow,
    /// The pointer would leave the tape at the top.
    PtrOverflow,
    /// The pointer would leave the tape at the bottom.
    PtrUnderflow,
}

/// A tape of all-zero cells.
pub open spec fn zero_cells() -> Seq<u8> {
    Seq::new(TAPE_LENGTH as nat, |i: int| 0u8)
}

/// Cell values that stay within a byte, or fail.
pub open spec fn checked_val(v: int) -> Option<u8> {
    if 0 <= v <= 255 {
        Some(v as u8)
    } else {
        None
    }
}

/// Cell values that wrap around modulo 256.
pub open spec fn wrapped_val(v: int) -> u8 {
    (v % 256) as u8
}

/// Pointers that stay on the tape, or fail.
pub open spec fn checked_ptr(p: int) -> Option<int> {
    if 0 <= p < TAPE_LENGTH {
        Some(p)
    } else {
        None
    }
}

/// Pointers that wrap around the ends of the tape.
pub open spec fn wrapped_ptr(p: int) -> int {
    p % (TAPE_LENGTH as int)
}

/// Memory cells and a pointer into them, with a policy for moves and
/// changes that would leave the byte range or the tape.
///
/// The model of a tape is `cells()`, always `TAPE_LENGTH` bytes, and
/// `pointer()`, always an index into them. What an increment or decrement
/// does is given by the four policy functions: `None` means the operation
/// fails with the matching error and leaves the tape as it was.
pub trait Tape: Sized {
    /// The internal invariant of the representation.
    spec fn wf(&self) -> bool;

    /// The cells, as a program sees them.
    spec fn cells(&self) -> Seq<u8>;

    /// The index of the current cell.
    spec fn pointer(&self) -> int;

    /// The value that incrementing `v` gives.
    spec fn val_up(v: u8) -> Option<u8>;

    /// The value that decrementing `v` gives.
    spec fn val_down(v: u8) -> Option<u8>;

    /// The pointer that moving up from `p` gives.
    spec fn ptr_up(p: int) -> Option<int>;

    /// The pointer that moving down from `p` gives.
    spec fn ptr_down(p: int) -> Option<int>;

    /// A fresh tape: all cells zero, pointer at the first cell.
    fn new() -> (t: Self)
        ensures
            t.wf(),
            t.cells() == zero_cells(),
            t.pointer() == 0,
    ;

    /// The value of the current cell.
    fn get(&self) -> (v: u8)
        requires
            self.wf(),
        ensures
            v == self.cells()[self.pointer()],
    ;

    /// Overwrite the current cell.
    fn set(&mut self, v: u8)
        requires
            old(self).wf(),
        ensures
            final(self).wf(),
            final(self).pointer() == old(self).pointer(),
            final(self).cells() == old(self).cells().update(old(self).pointer(), v),
    ;

    /// Increment the current cell, returning its new value.
    fn inc_val(&mut self) -> (r: Result<u8, Error>)
        requires
            old(self).wf(),
        ensures
            final(self).wf(),
            final(self).pointer() == old(self).pointer(),
            match Self::val_up(old(self).cells()[old(self).pointer()]) {
                Some(v) => r == Ok::<u8, Error>(v) && final(self).cells() == old(
                    self,
                ).cells().update(old(self).pointer(), v),
                None => r == Err::<u8, Error>(Error::ValOverflow) && final(self).cells() == old(
                    self,
                ).cells(),
            },
    ;

    /// Decrement the current cell, returning its new value.
    fn dec_val(&mut self) -> (r: Result<u8, Error>)
        requires
            old(self).wf(),
        ensures
            final(self).wf(),
            final(self).pointer() == old(self).pointer(),
            match Self::val_down(old(self).cells()[old(self).pointer()]) {
                Some(v) => r == Ok::<u8, Error>(v) && final(self).cells() == old(
                    self,
                ).cells().update(old(self).pointer(), v),
                None => r == Err::<u8, Error>(Error::ValUnderflow) && final(self).cells() == old(
                    self,
                ).cells(),
            },
    ;

    /// Move the pointer up one cell, returning its new position.
    fn inc_ptr(&mut self) -> (r: Result<usize, Error>)
        requires
            old(self).wf(),
        ensures
            final(self).wf(),
            final(self).cells() == old(self).cells(),
            match Self::ptr_up(old(self).pointer()) {
                Some(p) => r == Ok::<usize, Error>(p as usize) && final(self).pointer() == p,
                None => r == Err::<usize, Error>(Error::PtrOverflow) && final(self).pointer()
                    == old(self).pointer(),
            },
    ;

    /// Move the pointer down one cell, returning its new position.
    fn dec_ptr(&mut self) -> (r: Result<usize, Error>)
        requires
            old(self).wf(),
        ensures
            final(self).wf(),
            final(self).cells() == old(self).cells(),
            match Self::ptr_down(old(self).pointer()) {
                Some(p) => r == Ok::<usize, Error>(p as usize) && final(self).pointer() == p,
                None => r == Err::<usize, Error>(Error::PtrUnderflow) && final(self).pointer()
                    == old(self).pointer(),
            },
    ;
}

} // verus!
