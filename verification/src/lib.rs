//! Voxel world bookkeeping: bit-packed voxel maps, brick grids, GPU slot allocation and the
//! command streams that bring edits to the GPU.
pub mod math;
pub mod bitmask;
pub mod voxel;
pub mod pending;
pub mod client;
pub mod game;
pub mod input;
pub mod schedule;
pub mod gpu;
