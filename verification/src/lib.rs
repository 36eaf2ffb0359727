//! Core data structures of a Monte Carlo path tracer that can be stated and
//! checked over plain integers: the row-major pixel/texel grids that carry
//! frames and texture maps, the tile decomposition of the output image, the
//! wrap-around texel addressing used by texture lookups, and the packing of
//! quantized color channels into preview-buffer words.
//!
//! The floating-point side of the renderer (vector algebra, intersection
//! tests, the bounce loop) lives outside this library and drives it through
//! the grids and index functions defined here.

pub mod buffer;
pub mod mesh;
pub mod model;
pub mod texture;
pub mod tiles;
pub mod vector2d;
pub mod vector3d;
