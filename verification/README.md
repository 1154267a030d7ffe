# rtxel

Bookkeeping of a voxel renderer, verified with Verus.

- `src/` is the verified library: integer vectors (`math`), bit masks (`bitmask`), the
  voxel-to-brick arithmetic (`voxel`), the standalone engine's voxel maps, world grid, GPU
  slot allocation and unpack command queue (`client`), the game's brick grid, materials,
  terrain columns, command encoder and GPU world (`game`), keyboard and mouse state
  (`input`) and schedule ordering (`schedule`).
- `app/` is the program around it: the window and event loop, the floating-point camera and
  the noise that gives the terrain heights.
- `tests/` exercises the library on concrete values.
