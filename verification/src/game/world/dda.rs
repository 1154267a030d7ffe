//! Ray casting against the brick grid; the marching itself works in floating point and lives
//! outside this library.
use vstd::prelude::*;
use crate::game::world::brick_grid::BrickGrid;

verus! {

/// A ray caster over a borrowed brick grid.
#[derive(Debug, Clone, Copy)]
pub struct Raycast<'grid> {
    pub grid: &'grid BrickGrid,
}

impl<'grid> Raycast<'grid> {
    /// A ray caster over `grid`.
    pub fn new(grid: &'grid BrickGrid) -> (r: Raycast<'grid>)
        ensures
            *r.grid == *grid,
    {
        Raycast { grid }
    }
}

} // verus!
