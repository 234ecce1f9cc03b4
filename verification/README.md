# lithia_powder

The world and mesh logic of a small voxel game, verified with Verus.

- `src/` — the verified library:
  - `lattice`, `color`: integer vectors and 8-bit colours;
  - `mesh`: indexed triangle meshes (append, mapping, the unit square, the
    checkerboard floor, the faces of the unit cube);
  - `world`: the 32 x 32 x 32 block chunk, cell addressing, and
    `world/meshing`, which builds the mesh of a chunk's visible faces with
    per-corner occlusion;
  - `upload`: the layout of several meshes in one shared GPU vertex buffer and
    index buffer.
- `app/` — the game itself, unverified: SDL window and GPU rendering, input,
  animations and everything in floating point, built on glam. It turns the
  library's lattice meshes into world-space `f32` meshes.
- `tests/` — tests of the library.

Shader sources are read at run time from `shaders/` next to the executable's
working directory.
