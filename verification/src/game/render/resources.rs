//! GPU-side data of the draw pass.
use vstd::prelude::*;

verus! {

/// GPU-side description of a brick map, as read by the draw pass.
#[derive(Debug, Clone, Copy)]
pub struct GpuBrickMap {
    pub mask: [u32; 16],
    pub is_requested: u32,
}

} // verus!
