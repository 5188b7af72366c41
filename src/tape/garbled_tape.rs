use vstd::prelude::*;
use super::{Error, Tape, TAPE_LENGTH, checked_ptr, checked_val, zero_cells};

verus! {

/// The number of physical cells of a garbled tape: a power of two above
/// `TAPE_LENGTH`, so that any index masked with the key stays inside.
pub const GARBLED_SPAN: usize = 32768;

/// The key that scrambles the position of each cell.
pub const GARBLED_KEY: usize = 10842;

/// The mask that scrambles the value of each cell.
pub const GARBLED_MASK: u8 = 37;

/// A tape that stores each cell at a scrambled position with a scrambled
/// value, so that its memory does not show where the program works or what
/// it holds. Operations fail rather than leave the byte range or the tape.
pub struct GarbledTape {
    cells: Vec<u8>,
    ptr: usize,
    key: usize,
    mask: u8,
}

proof fn lemma_xor_usize(a: usize, b: usize, k: usize)
    ensures
        (a ^ k) ^ k == a,
        a ^ k == b ^ k ==> a == b,
        a < 32768 && k < 32768 ==> a ^ k < 32768,
{
    assert((a ^ k) ^ k == a) by (bit_vector);
    assert(a ^ k == b ^ k ==> a == b) by (bit_vector);
    assert(a < 32768 && k < 32768 ==> a ^ k < 32768) by (bit_vector);
}

proof fn lemma_xor_u8(v: u8, m: u8)
    ensures
        (v ^ m) ^ m == v,
{
    assert((v ^ m) ^ m == v) by (bit_vector);
}

impl GarbledTape {
    /// The mask applied to every stored value.
    pub closed spec fn value_mask(&self) -> u8 {
        self.mask
    }

    /// The key applied to every cell position.
    pub closed spec fn position_key(&self) -> usize {
        self.key
    }

    /// The stored, scrambled byte of the current cell.
    pub fn raw(&self) -> (b: u8)
        requires
            self.wf(),
        ensures
            b == self.cells()[self.pointer()] ^ self.value_mask(),
    {
        proof {
            lemma_xor_usize(self.ptr, self.ptr, self.key);
            lemma_xor_u8(self.cells@[self.ptr as int], self.mask);
        }
        self.cells[self.ptr]
    }

    /// Overwrite the stored, scrambled byte of the current cell.
    pub fn set_raw(&mut self, b: u8)
        requires
            old(self).wf(),
        ensures
            final(self).wf(),
            final(self).pointer() == old(self).pointer(),
            final(self).value_mask() == old(self).value_mask(),
            final(self).cells() == old(self).cells().update(
                old(self).pointer(),
                b ^ old(self).value_mask(),
            ),
    {
        self.cells.set(self.ptr, b);
        proof {
            lemma_xor_usize(self.ptr, self.ptr, self.key);
            assert forall|i: int| 0 <= i < TAPE_LENGTH implies #[trigger] self.cells()[i]
                == old(self).cells().update(old(self).pointer(), b ^ self.mask)[i] by {
                lemma_xor_usize(i as usize, (self.ptr ^ self.key), self.key);
            }
            assert(self.cells() =~= old(self).cells().update(
                old(self).pointer(),
                b ^ self.mask,
            ));
        }
    }

    /// The key that scrambles cell positions.
    pub fn key(&self) -> (k: usize)
        ensures
            k == self.position_key(),
    {
        self.key
    }
}

impl Default for GarbledTape {
    fn default() -> (t: Self)
        ensures
            t.wf(),
            t.cells() == zero_cells(),
            t.pointer() == 0,
    {
        Self::new()
    }
}

impl Tape for GarbledTape {
    closed spec fn wf(&self) -> bool {
        &&& self.cells@.len() == GARBLED_SPAN
        &&& self.key < GARBLED_SPAN
        &&& self.ptr < GARBLED_SPAN
        &&& (self.ptr ^ self.key) < TAPE_LENGTH
    }

    closed spec fn cells(&self) -> Seq<u8> {
        Seq::new(
            TAPE_LENGTH as nat,
            |i: int| self.cells@[((i as usize) ^ self.key) as int] ^ self.mask,
        )
    }

    closed spec fn pointer(&self) -> int {
        (self.ptr ^ self.key) as int
    }

    open spec fn val_up(v: u8) -> Option<u8> {
        checked_val(v + 1)
    }

    open spec fn val_down(v: u8) -> Option<u8> {
        checked_val(v - 1)
    }

    open spec fn ptr_up(p: int) -> Option<int> {
        checked_ptr(p + 1)
    }

    open spec fn ptr_down(p: int) -> Option<int> {
        checked_ptr(p - 1)
    }

    fn new() -> (t: Self) {
        let mut cells: Vec<u8> = Vec::new();
        while cells.len() < GARBLED_SPAN
            invariant
                cells@.len() <= GARBLED_SPAN,
                forall|i: int| 0 <= i < cells@.len() ==> cells@[i] == GARBLED_MASK,
            decreases GARBLED_SPAN - cells@.len(),
        {
            cells.push(GARBLED_MASK);
        }
        let t = GarbledTape { cells, ptr: GARBLED_KEY, key: GARBLED_KEY, mask: GARBLED_MASK };
        proof {
            lemma_xor_usize(0, 0, GARBLED_KEY);
            lemma_xor_u8(0, GARBLED_MASK);
            assert((GARBLED_KEY ^ GARBLED_KEY) == 0usize) by (bit_vector);
            assert forall|i: int| 0 <= i < TAPE_LENGTH implies #[trigger] t.cells()[i] == 0u8 by {
                lemma_xor_usize(i as usize, 0, GARBLED_KEY);
                assert(GARBLED_MASK ^ GARBLED_MASK == 0u8) by (bit_vector);
            }
            assert(t.cells() =~= zero_cells());
        }
        t
    }

    fn get(&self) -> (v: u8) {
        proof {
            lemma_xor_usize(self.ptr, self.ptr, self.key);
        }
        self.cells[self.ptr] ^ self.mask
    }

    fn set(&mut self, v: u8) {
        proof {
            lemma_xor_u8(v, self.mask);
        }
        self.set_raw(v ^ self.mask);
    }

    fn inc_val(&mut self) -> (r: Result<u8, Error>) {
        let v = self.get();
        if v < 255 {
            self.set(v + 1);
            Ok(v + 1)
        } else {
            Err(Error::ValOverflow)
        }
    }

    fn dec_val(&mut self) -> (r: Result<u8, Error>) {
        let v = self.get();
        if v > 0 {
            self.set(v - 1);
            Ok(v - 1)
        } else {
            Err(Error::ValUnderflow)
        }
    }

    fn inc_ptr(&mut self) -> (r: Result<usize, Error>) {
        let at = self.ptr ^ self.key;
        if at + 1 < TAPE_LENGTH {
            proof {
                lemma_xor_usize((at + 1) as usize, 0, self.key);
            }
            self.ptr = (at + 1) ^ self.key;
            Ok(at + 1)
        } else {
            Err(Error::PtrOverflow)
        }
    }

    fn dec_ptr(&mut self) -> (r: Result<usize, Error>) {
        let at = self.ptr ^ self.key;
        if at > 0 {
            proof {
                lemma_xor_usize((at - 1) as usize, 0, self.key);
            }
            self.ptr = (at - 1) ^ self.key;
            Ok(at - 1)
        } else {
            Err(Error::PtrUnderflow)
        }
    }
}

} // verus!
