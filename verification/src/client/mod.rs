//! The standalone voxel engine: voxel maps, the world grid, GPU bookkeeping and input.
pub mod map;
pub mod world;
pub mod slot_allocator;
pub mod command;
pub mod gpu_world;
pub mod keyboard;
pub mod generator;
pub mod frame;
pub mod unpack;
