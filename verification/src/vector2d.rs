//! A row-major two-dimensional grid. Frames accumulate pixel colors in one,
//! and texture maps are stored as one; the element type is anything the
//! renderer cares to put in the cells.

use vstd::prelude::*;

verus! {

/// A `width x height` grid stored row-major in a flat vector, together with
/// the fill value its cells start from.
#[derive(Clone)]
pub struct Vector2D<T> {
    pub width: usize,
    pub height: usize,
    pub data: Vec<T>,
    pub default: T,
}

impl<T> Vector2D<T> {
    /// The flat vector holds exactly one cell for every (row, column) pair.
    pub open spec fn wf(self) -> bool {
        self.data@.len() == self.width * self.height
    }

    /// Position of cell (row, col) in the flat row-major vector.
    pub open spec fn spec_index_of(self, row: int, col: int) -> int {
        row * self.width + col
    }

    /// Builds a grid with every cell set to `fill`.
    pub fn new(width: usize, height: usize, fill: T) -> (result: Self) where T: Copy
        requires
            width * height <= usize::MAX,
        ensures
            result.wf(),
            result.width == width,
            result.height == height,
            result.default == fill,
            forall|i: int| 0 <= i < result.data@.len() ==> result.data@[i] == fill,
    {
        let size: usize = width * height;
        let mut data: Vec<T> = Vec::new();
        while data.len() < size
            invariant
                data@.len() <= size,
                forall|i: int| 0 <= i < data@.len() ==> data@[i] == fill,
            decreases size - data@.len(),
        {
            data.push(fill);
        }
        Self { width, height, data, default: fill }
    }

    /// Row-major index of cell (row, col).
    pub fn get_index(&self, row: usize, col: usize) -> (index: usize)
        requires
            row * self.width + col <= usize::MAX,
        ensures
            index == self.spec_index_of(row as int, col as int),
    {
        row * self.width + col
    }

    /// The cell at (row, col); the position must fall inside the flat vector.
    pub fn get(&self, row: usize, col: usize) -> (value: &T)
        requires
            0 <= self.spec_index_of(row as int, col as int) < self.data@.len(),
        ensures
            *value == self.data@[self.spec_index_of(row as int, col as int)],
    {
        // reading the length bounds the row-major index by usize::MAX
        let _len: usize = self.data.len();
        let index: usize = self.get_index(row, col);
        &self.data[index]
    }

    /// Writes `value` at (row, col) if the position falls inside the flat
    /// vector, and reports whether it did; an out-of-range write is dropped.
    pub fn set(&mut self, row: usize, col: usize, value: T) -> (result: Option<()>)
        requires
            row * old(self).width + col <= usize::MAX,
        ensures
            final(self).width == old(self).width,
            final(self).height == old(self).height,
            final(self).default == old(self).default,
            old(self).spec_index_of(row as int, col as int) < old(self).data@.len() ==> {
                &&& result == Some(())
                &&& final(self).data@ == old(self).data@.update(
                    old(self).spec_index_of(row as int, col as int),
                    value,
                )
            },
            old(self).spec_index_of(row as int, col as int) >= old(self).data@.len() ==> {
                &&& result == None::<()>
                &&& final(self).data@ == old(self).data@
            },
    {
        let index: usize = self.get_index(row, col);
        if index < self.data.len() {
            self.data.set(index, value);
            Some(())
        } else {
            None
        }
    }

    /// Splits a flat row-major position back into (row, col): the inverse of
    /// `get_index`, used when walking the flat vector cell by cell.
    pub fn get_coords(&self, index: usize) -> (coords: (usize, usize))
        requires
            self.width > 0,
        ensures
            coords.0 == index as int / self.width as int,
            coords.1 == index as int % self.width as int,
            self.spec_index_of(coords.0 as int, coords.1 as int) == index,
            self.wf() && index < self.data@.len() ==> coords.0 < self.height,
    {
        proof {
            vstd::arithmetic::div_mod::lemma_fundamental_div_mod(
                index as int,
                self.width as int,
            );
            vstd::arithmetic::mul::lemma_mul_is_commutative(
                index as int / self.width as int,
                self.width as int,
            );
            if self.wf() && index < self.data@.len() {
                vstd::arithmetic::div_mod::lemma_multiply_divide_lt(
                    index as int,
                    self.width as int,
                    self.height as int,
                );
            }
        }
        (index / self.width, index % self.width)
    }
}

} // verus!
