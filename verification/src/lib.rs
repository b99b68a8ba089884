//! Tiled heightfield terrain geometry, verified.
//!
//! A grayscale elevation grid is partitioned into fixed-size tiles, each tile
//! is meshed (vertex positions, texture coordinates, smooth vertex normals,
//! triangle indices), and the resulting meshes are kept in a registry keyed by
//! tile coordinates. Alongside the mesh generator live a ray/ground-plane
//! intersector used for screen-to-ground picking and a scaled planar mapper
//! that projects world positions into a clamped 2D overview rectangle.
//!
//! All geometry is carried in exact rational arithmetic ([`rat::Rat`]); vertex
//! normals use a fixed-point unit scale so that normalization is exact,
//! deterministic integer arithmetic. A rendering layer may convert the
//! rationals to floating point at the very edge.

use vstd::prelude::*;

pub mod alphamap;
pub mod grid;
pub mod ground;
pub mod heightmap;
pub mod mesh;
pub mod normal;
pub mod ortho;
pub mod rat;
pub mod raycast;
pub mod registry;
pub mod terrain_mode;
pub mod tile;
pub mod vec3;

verus! {

} // verus!
