//! Ordering of the render passes, the grid description the draw pass reads, and the unpack
//! work taken from the GPU world each frame.
use vstd::prelude::*;
use crate::game::render::command::{UnpackCommand, encode_all, encode_commands, offsets_of};
use crate::game::render::gpu_world::GpuWorld;
use crate::pending::drained_as;

verus! {

/// Start-up stages of the renderer, run in this order.
#[derive(Debug, Clone, Copy, PartialEq, Eq, Hash)]
pub enum RenderStartupSet {
    Context,
    SharedResources,
    Resources,
}

/// Stages of every render pass, run in this order.
#[derive(Debug, Clone, Copy, PartialEq, Eq, Hash)]
pub enum PipelineSet {
    Extract,
    Dispatch,
}

/// Size of the brick grid, padded to the 16 bytes of a uniform.
#[derive(Debug, Clone, Copy, PartialEq, Eq, Default)]
pub struct GridConfiguration {
    pub size: i32,
    pub _pad0: i32,
    pub _pad1: i32,
    pub _pad2: i32,
}

/// The unpack work of a frame: every pending command of the GPU world is taken out and
/// encoded. Returns their number (as a `u32`), their words and the offset of each command.
pub fn extract_commands(world: &mut GpuWorld) -> (r: (u32, Vec<u32>, Vec<u32>))
    ensures
        r.0 == old(world).pending().len() as u32,
        exists|cmds: Seq<UnpackCommand>|
            {
                &&& exists|ks: Seq<u32>| drained_as(old(world).pending(), ks, cmds)
                &&& r.1@ == encode_all(cmds)
                &&& r.2@ == offsets_of(cmds)
            },
        final(world).pending() == Map::<u32, UnpackCommand>::empty(),
        final(world).grid_map() == old(world).grid_map(),
        final(world).map_pallete() == old(world).map_pallete(),
        final(world).maps() == old(world).maps(),
        final(world).palletes() == old(world).palletes(),
{
    let (len, commands) = world.drain_commands();
    let (data, offsets) = encode_commands(&commands);
    (len as u32, data, offsets)
}

} // verus!
