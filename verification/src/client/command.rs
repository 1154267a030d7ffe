//! Commands for the unpack pass, which copies brick maps into their GPU slots.
use vstd::prelude::*;

verus! {

/// Command representing action for unpack shader to perform.
#[derive(Debug, Clone, Copy, PartialEq, Eq)]
pub struct Command {
    pub action: u32,
    pub grid: u32,
    pub map: u32,
    pub mask8: [u32; 16],
    pub mask4: [u32; 2],
    pub mask2: [u32; 1],
}

impl Command {
    /// Action code of a clear command.
    pub const ACTION_CLEAR: u32 = 0;
    /// Action code of a set command.
    pub const ACTION_SET: u32 = 1;

    /// Create a clear command. Clears grid at given index.
    pub fn clear(grid: u32) -> (c: Command)
        ensures
            c.action == 0,
            c.grid == grid,
            c.map == 0,
            c.mask8@ == Seq::new(16, |i: int| 0u32),
            c.mask4@ == Seq::new(2, |i: int| 0u32),
            c.mask2@ == Seq::new(1, |i: int| 0u32),
    {
        let c = Command {
            action: Self::ACTION_CLEAR,
            grid,
            map: 0,
            mask8: [0; 16],
            mask4: [0; 2],
            mask2: [0; 1],
        };
        proof {
            broadcast use vstd::array::axiom_spec_array_fill_for_copy_type;

            assert(c.mask8@ =~= Seq::new(16, |i: int| 0u32));
            assert(c.mask4@ =~= Seq::new(2, |i: int| 0u32));
            assert(c.mask2@ =~= Seq::new(1, |i: int| 0u32));
        }
        c
    }

    /// Create a set command. Assigns map to a grid with given mask.
    pub fn set(grid: u32, map: u32, mask8: [u32; 16], mask4: [u32; 2], mask2: [u32; 1]) -> (c:
        Command)
        ensures
            c.action == 1,
            c.grid == grid,
            c.map == map,
            c.mask8 == mask8,
            c.mask4 == mask4,
            c.mask2 == mask2,
    {
        Command { action: Self::ACTION_SET, grid, map, mask8, mask4, mask2 }
    }
}

} // verus!
