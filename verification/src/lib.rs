//! Voxel world and mesh building for a small block game: the chunk of blocks,
//! the triangle meshes built from it, and the layout of meshes in GPU buffers.

pub mod color;
pub mod lattice;
pub mod mesh;
pub mod world;
pub mod upload;
