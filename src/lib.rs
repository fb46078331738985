//! Voxel chunk storage, terrain generation, face-culling meshing and chunk
//! lifecycle scheduling for a block world.
pub mod chunk;
pub mod coords;
pub mod geometry;
pub mod mesh_laws;
pub mod mesher;
pub mod mining;
pub mod terrain;
pub mod voxel;
pub mod world;
