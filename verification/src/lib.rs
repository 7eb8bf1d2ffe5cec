//! A chunked voxel-world core: chunk data model and generation, greedy-free
//! naive meshing with ambient occlusion, a spawn/despawn scheduler, a
//! content-hash mesh cache, and exact grid traversal / raycasting.
//!
//! World-space positions are carried as 16.16 fixed-point integers, so the
//! traversal and raycast arithmetic is exact.

pub mod hash;
pub mod chunk;
pub mod chunk_map;
pub mod configuration;
pub mod math;
pub mod mesh_cache;
pub mod meshing;
pub mod overlay;
pub mod rng;
pub mod shape;
pub mod voxel;
pub mod voxel_traversal;
pub mod voxel_world;
