//! The plugin-based game: brick grid, materials, GPU world bookkeeping and unpack commands.
pub mod world;
pub mod render;

use vstd::prelude::*;

verus! {

/// Marks the entity the camera belongs to.
#[derive(Debug, Clone, Copy)]
pub struct Player;

} // verus!
