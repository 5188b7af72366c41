use vstd::prelude::*;
use super::{Error, Tape, TAPE_LENGTH, checked_ptr, checked_val, zero_cells};

verus! {

/// A tape whose `TAPE_LENGTH` cells are allocated up front, and whose
/// operations fail rather than leave the byte range or the tape.
pub struct ArrayTape {
    cells: Vec<u8>,
    ptr: usize,
}

impl Default for ArrayTape {
    fn default() -> (t: Self)
        ensures
            t.wf(),
            t.cells() == zero_cells(),
            t.pointer() == 0,
    {
        Self::new()
    }
}

/// On a bounds-checking tape the pointer moves up from each cell but the
/// last, so that from the first cell the move numbered `TAPE_LENGTH` is the
/// first to fail; it cannot move down from the first cell; a cell counts up
/// from 0 to 255, so that the increment numbered 256 is the first to fail;
/// and a cell at 0 cannot be decremented.
pub proof fn lemma_checked_bounds()
    ensures
        forall|p: int| 0 <= p < TAPE_LENGTH - 1 ==> #[trigger] ArrayTape::ptr_up(p) == Some(p + 1),
        ArrayTape::ptr_up(TAPE_LENGTH - 1) == None::<int>,
        forall|p: int| 0 < p < TAPE_LENGTH ==> #[trigger] ArrayTape::ptr_down(p) == Some(p - 1),
        ArrayTape::ptr_down(0) == None::<int>,
        forall|v: u8| v < 255 ==> #[trigger] ArrayTape::val_up(v) == Some((v + 1) as u8),
        ArrayTape::val_up(255) == None::<u8>,
        forall|v: u8| 0 < v ==> #[trigger] ArrayTape::val_down(v) == Some((v - 1) as u8),
        ArrayTape::val_down(0) == None::<u8>,
{
}

impl Tape for ArrayTape {
    closed spec fn wf(&self) -> bool {
        self.cells@.len() == TAPE_LENGTH && self.ptr < TAPE_LENGTH
    }

    closed spec fn cells(&self) -> Seq<u8> {
        self.cells@
    }

    closed spec fn pointer(&self) -> int {
        self.ptr as int
    }

    open spec fn val_up(v: u8) -> Option<u8> {
        checked_val(v + 1)
    }

    open spec fn val_down(v: u8) -> Option<u8> {
        checked_val(v - 1)
    }

    open spec fn ptr_up(p: int) -> Option<int> {
        checked_ptr(p + 1)
    }

    open spec fn ptr_down(p: int) -> Option<int> {
        checked_ptr(p - 1)
    }

    fn new() -> (t: Self) {
        let mut cells: Vec<u8> = Vec::new();
        while cells.len() < TAPE_LENGTH
            invariant
                cells@.len() <= TAPE_LENGTH,
                forall|i: int| 0 <= i < cells@.len() ==> cells@[i] == 0,
            decreases TAPE_LENGTH - cells@.len(),
        {
            cells.push(0);
        }
        assert(cells@ =~= zero_cells());
        ArrayTape { cells, ptr: 0 }
    }

    fn get(&self) -> (v: u8) {
        self.cells[self.ptr]
    }

    fn set(&mut self, v: u8) {
        self.cells.set(self.ptr, v);
    }

    fn inc_val(&mut self) -> (r: Result<u8, Error>) {
        let v = self.get();
        if v < 255 {
            self.set(v + 1);
            Ok(v + 1)
        } else {
            Err(Error::ValOverflow)
        }
    }

    fn dec_val(&mut self) -> (r: Result<u8, Error>) {
        let v = self.get();
        if v > 0 {
            self.set(v - 1);
            Ok(v - 1)
        } else {
            Err(Error::ValUnderflow)
        }
    }

    fn inc_ptr(&mut self) -> (r: Result<usize, Error>) {
        if self.ptr + 1 < TAPE_LENGTH {
            self.ptr = self.ptr + 1;
            Ok(self.ptr)
        } else {
            Err(Error::PtrOverflow)
        }
    }

    fn dec_ptr(&mut self) -> (r: Result<usize, Error>) {
        if self.ptr > 0 {
            self.ptr = self.ptr - 1;
            Ok(self.ptr)
        } else {
            Err(Error::PtrUnderflow)
        }
    }
}

} // verus!
