use vstd::prelude::*;
use super::{Error, Tape, TAPE_LENGTH, checked_ptr, checked_val, zero_cells};

verus! {

/// A tape that allocates cells only as the pointer first reaches them, and
/// whose operations fail rather than leave the byte range or the tape.
pub struct VecTape {
    cells: Vec<u8>,
    ptr: usize,
}

impl Default for VecTape {
    fn default() -> (t: Self)
        ensures
            t.wf(),
            t.cells() == zero_cells(),
            t.pointer() == 0,
    {
        Self::new()
    }
}

impl Tape for VecTape {
    closed spec fn wf(&self) -> bool {
        &&& 0 < self.cells@.len() <= TAPE_LENGTH
        &&& self.ptr < self.cells@.len()
    }

    closed spec fn cells(&self) -> Seq<u8> {
        Seq::new(
            TAPE_LENGTH as nat,
            |i: int|
                if i < self.cells@.len() {
                    self.cells@[i]
                } else {
                    0u8
                },
        )
    }

    closed spec fn pointer(&self) -> int {
        self.ptr as int
    }

    open spec fn val_up(v: u8) -> Option<u8> {
        checked_val(v + 1)
    }

    open spec fn val_down(v: u8) -> Option<u8> {
        checked_val(v - 1)
    }

    open spec fn ptr_up(p: int) -> Option<int> {
        checked_ptr(p + 1)
    }

    open spec fn ptr_down(p: int) -> Option<int> {
        checked_ptr(p - 1)
    }

    fn new() -> (t: Self) {
        let mut cells: Vec<u8> = Vec::new();
        cells.push(0);
        let t = VecTape { cells, ptr: 0 };
        assert(t.cells() =~= zero_cells());
        t
    }

    fn get(&self) -> (v: u8) {
        self.cells[self.ptr]
    }

    fn set(&mut self, v: u8) {
        self.cells.set(self.ptr, v);
        assert(self.cells() =~= old(self).cells().update(old(self).pointer(), v));
    }

    fn inc_val(&mut self) -> (r: Result<u8, Error>) {
        let v = self.get();
        if v < 255 {
            self.set(v + 1);
            Ok(v + 1)
        } else {
            Err(Error::ValOverflow)
        }
    }

    fn dec_val(&mut self) -> (r: Result<u8, Error>) {
        let v = self.get();
        if v > 0 {
            self.set(v - 1);
            Ok(v - 1)
        } else {
            Err(Error::ValUnderflow)
        }
    }

    fn inc_ptr(&mut self) -> (r: Result<usize, Error>) {
        if self.ptr + 1 < TAPE_LENGTH {
            if self.ptr + 1 >= self.cells.len() {
                self.cells.push(0);
            }
            self.ptr = self.ptr + 1;
            assert(self.cells() =~= old(self).cells());
            Ok(self.ptr)
        } else {
            Err(Error::PtrOverflow)
        }
    }

    fn dec_ptr(&mut self) -> (r: Result<usize, Error>) {
        if self.ptr > 0 {
            self.ptr = self.ptr - 1;
            Ok(self.ptr)
        } else {
            Err(Error::PtrUnderflow)
        }
    }
}

} // verus!
