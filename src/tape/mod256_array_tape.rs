use vstd::prelude::*;
use super::{Error, Tape, TAPE_LENGTH, checked_ptr, wrapped_val, zero_cells};

verus! {

/// A tape whose `TAPE_LENGTH` cells are allocated up front, whose values
/// wrap modulo 256, and whose pointer fails rather than leave the tape.
pub struct Mod256ArrayTape {
    cells: Vec<u8>,
    ptr: usize,
}

impl Default for Mod256ArrayTape {
    fn default() -> (t: Self)
        ensures
            t.wf(),
            t.cells() == zero_cells(),
            t.pointer() == 0,
    {
        Self::new()
    }
}

impl Tape for Mod256ArrayTape {
    closed spec fn wf(&self) -> bool {
        self.cells@.len() == TAPE_LENGTH && self.ptr < TAPE_LENGTH
    }

    closed spec fn cells(&self) -> Seq<u8> {
        self.cells@
    }

    closed spec fn pointer(&self) -> int {
        self.ptr as int
    }

    open spec fn val_up(v: u8) -> Option<u8> {
        Some(wrapped_val(v + 1))
    }

    open spec fn val_down(v: u8) -> Option<u8> {
        Some(wrapped_val(v - 1 + 256))
    }

    open spec fn ptr_up(p: int) -> Option<int> {
        checked_ptr(p + 1)
    }

    open spec fn ptr_down(p: int) -> Option<int> {
        checked_ptr(p - 1)
    }

    fn new() -> (t: Self) {
        let mut cells: Vec<u8> = Vec::new();
        while cells.len() < TAPE_LENGTH
            invariant
                cells@.len() <= TAPE_LENGTH,
                forall|i: int| 0 <= i < cells@.len() ==> cells@[i] == 0,
            decreases TAPE_LENGTH - cells@.len(),
        {
            cells.push(0);
        }
        assert(cells@ =~= zero_cells());
        Mod256ArrayTape { cells, ptr: 0 }
    }

    fn get(&self) -> (v: u8) {
        self.cells[self.ptr]
    }

    fn set(&mut self, v: u8) {
        self.cells.set(self.ptr, v);
    }

    fn inc_val(&mut self) -> (r: Result<u8, Error>) {
        let v = self.get().wrapping_add(1);
        self.set(v);
        Ok(v)
    }

    fn dec_val(&mut self) -> (r: Result<u8, Error>) {
        let v = self.get().wrapping_sub(1);
        self.set(v);
        Ok(v)
    }

    fn inc_ptr(&mut self) -> (r: Result<usize, Error>) {
        if self.ptr + 1 < TAPE_LENGTH {
            self.ptr = self.ptr + 1;
            Ok(self.ptr)
        } else {
            Err(Error::PtrOverflow)
        }
    }

    fn dec_ptr(&mut self) -> (r: Result<usize, Error>) {
        if self.ptr > 0 {
            self.ptr = self.ptr - 1;
            Ok(self.ptr)
        } else {
            Err(Error::PtrUnderflow)
        }
    }
}

} // verus!
