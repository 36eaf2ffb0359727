//! The kinds of primitive the scene can carry. Geometry itself is built and
//! intersected by the floating-point side of the renderer; the tag is kept
//! here so scene descriptions can be stored and compared exactly.

use vstd::prelude::*;

verus! {

/// What a scene primitive is: nothing yet, an analytic sphere, or a triangle.
#[derive(Copy, Clone, Debug, PartialEq, Eq, Structural)]
pub enum PrimitiveMeshType {
    Empty,
    Sphere,
    Triangle,
}

} // verus!
