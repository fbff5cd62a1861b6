//! Voxelization of triangulated meshes.
//!
//! Coordinates are exact fixed-point numbers: an integer `c` stands for the
//! real value `c / FIXED_ONE`. All geometry is computed exactly over the
//! integers, so the plane, weight and depth computations carry no rounding
//! error; rounding happens only where a grid index is taken.
use vstd::prelude::*;

pub mod arith;
pub mod coords;
pub mod grid;
pub mod model;
pub mod model2arr;
pub mod plane;
pub mod texture;
pub mod utils;
pub mod vec2;
pub mod vec3;

verus! {

/// Number of fixed-point units in one unit of length.
pub const FIXED_ONE: i64 = 1024;

/// Largest magnitude of a vertex or texture coordinate, in fixed-point units
/// (1024 units of length). It keeps the exact plane, weight, depth and
/// texture-mapping arithmetic within `i128`. A mesh scaled to fit a grid
/// must therefore span at most 1024 cells along each axis to be voxelized,
/// whatever the grid's `u16` dimensions allow.
pub const COORD_LIMIT: i64 = 1048576;

/// Largest supported sampling resolution (samples per unit length).
pub const MAX_RESOLUTION: u16 = 1024;

/// The value stored in one voxel: empty, or a material.
pub type Block = i16;

/// The names of the available textures, in the order of their ids.
#[derive(Debug)]
pub struct TextureNames {
    pub textures: Vec<String>,
}

/// Names of block materials.
#[derive(Debug)]
pub struct Blocks(pub Vec<String>);

} // verus!
