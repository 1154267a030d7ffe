//! Bookkeeping of the game's GPU world: slot allocation and unpack commands.
pub mod slot_allocator;
pub mod command;
pub mod gpu_world;
pub mod pipeline;
pub mod resources;
