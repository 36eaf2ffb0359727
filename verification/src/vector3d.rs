//! A row-major three-dimensional grid, the volumetric counterpart of
//! `Vector2D`: cells are addressed by (row, col, layer) and stored in one
//! flat vector.

use vstd::prelude::*;

verus! {

/// A `width x height x depth` grid stored in a flat vector, row-major with
/// the layer index varying fastest, together with the fill value its cells
/// start from.
#[derive(Clone)]
pub struct Vector3D<T> {
    pub width: usize,
    pub height: usize,
    pub depth: usize,
    pub data: Vec<T>,
    pub default: T,
}

impl<T> Vector3D<T> {
    /// The flat vector holds exactly one cell for every (row, col, layer)
    /// triple.
    pub open spec fn wf(self) -> bool {
        self.data@.len() == self.width * self.height * self.depth
    }

    /// Position of cell (row, col, layer) in the flat vector.
    pub open spec fn spec_index_of(self, row: int, col: int, layer: int) -> int {
        row * self.width * self.depth + col * self.depth + layer
    }

    /// Builds a grid with every cell set to `fill`.
    pub fn new(width: usize, height: usize, depth: usize, fill: T) -> (result: Self) where
        T: Copy,

        requires
            width * height <= usize::MAX,
            width * height * depth <= usize::MAX,
        ensures
            result.wf(),
            result.width == width,
            result.height == height,
            result.depth == depth,
            result.default == fill,
            forall|i: int| 0 <= i < result.data@.len() ==> result.data@[i] == fill,
    {
        let size: usize = width * height * depth;
        let mut data: Vec<T> = Vec::new();
        while data.len() < size
            invariant
                data@.len() <= size,
                forall|i: int| 0 <= i < data@.len() ==> data@[i] == fill,
            decreases size - data@.len(),
        {
            data.push(fill);
        }
        Self { width, height, depth, data, default: fill }
    }

    /// Flat index of cell (row, col, layer).
    pub fn get_index(&self, row: usize, col: usize, layer: usize) -> (index: usize)
        requires
            row * self.width <= usize::MAX,
            row * self.width * self.depth + col * self.depth + layer <= usize::MAX,
        ensures
            index == self.spec_index_of(row as int, col as int, layer as int),
    {
        row * self.width * self.depth + col * self.depth + layer
    }

    /// The cell at (row, col, layer), or `None` when the position falls
    /// outside the flat vector.
    pub fn get(&self, row: usize, col: usize, layer: usize) -> (value: Option<&T>)
        requires
            row * self.width <= usize::MAX,
            row * self.width * self.depth + col * self.depth + layer <= usize::MAX,
        ensures
            self.spec_index_of(row as int, col as int, layer as int) < self.data@.len() ==> value
                == Some(&self.data@[self.spec_index_of(row as int, col as int, layer as int)]),
            self.spec_index_of(row as int, col as int, layer as int) >= self.data@.len() ==> value
                == None::<&T>,
    {
        let index: usize = self.get_index(row, col, layer);
        if index < self.data.len() {
            Some(&self.data[index])
        } else {
            None
        }
    }

    /// Writes `value` at (row, col, layer) if the position falls inside the
    /// flat vector, and reports whether it did; an out-of-range write is
    /// dropped.
    pub fn set(&mut self, row: usize, col: usize, layer: usize, value: T) -> (result: Option<
        (),
    >)
        requires
            row * old(self).width <= usize::MAX,
            row * old(self).width * old(self).depth + col * old(self).depth + layer
                <= usize::MAX,
        ensures
            final(self).width == old(self).width,
            final(self).height == old(self).height,
            final(self).depth == old(self).depth,
            final(self).default == old(self).default,
            old(self).spec_index_of(row as int, col as int, layer as int) < old(
                self,
            ).data@.len() ==> {
                &&& result == Some(())
                &&& final(self).data@ == old(self).data@.update(
                    old(self).spec_index_of(row as int, col as int, layer as int),
                    value,
                )
            },
            old(self).spec_index_of(row as int, col as int, layer as int) >= old(
                self,
            ).data@.len() ==> {
                &&& result == None::<()>
                &&& final(self).data@ == old(self).data@
            },
    {
        let index: usize = self.get_index(row, col, layer);
        if index < self.data.len() {
            self.data.set(index, value);
            Some(())
        } else {
            None
        }
    }
}

} // verus!
