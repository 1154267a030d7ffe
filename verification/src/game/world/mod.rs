//! The voxel world of the game: bricks of materials and the materials themselves.
pub mod material;
pub mod brick_grid;
pub mod dda;
pub mod terrain;

use vstd::prelude::*;
use crate::game::world::material::MaterialId;

verus! {

/// The materials registered at start-up for terrain generation.
#[derive(Debug, Clone, Copy)]
pub struct DefaultMaterials {
    pub dirt: MaterialId,
    pub grass: MaterialId,
    pub stone: MaterialId,
    pub sand: MaterialId,
    pub snow: MaterialId,
    pub water: MaterialId,
    pub gravel: MaterialId,
}

/// Installs the world resources and the terrain generation at start-up.
#[derive(Debug, Clone, Copy)]
pub struct WorldPlugin;

} // verus!
