//! Voxel map: a cubic chunk of blocks, and mesh generation from it.

use vstd::prelude::*;

use crate::color::{rgba8, Rgba8};
use crate::lattice::IVec3;
use crate::mesh::{Mesh, Vertex};

pub mod meshing;

verus! {

/// The kind of material filling one cell of a chunk. Each kind has a one-byte
/// code (see [`Block::code`]); code 0 is left free to stand for no block.
#[derive(Debug, Clone, Copy, PartialEq, Eq)]
pub enum Block {
    Air,
    Sand,
}

/// The colour of a block: transparent black for air, sandy orange for sand.
pub open spec fn block_color(b: Block) -> Rgba8 {
    match b {
        Block::Air => Rgba8 { r: 0, g: 0, b: 0, a: 0 },
        Block::Sand => Rgba8 { r: 244, g: 164, b: 96, a: 255 },
    }
}

impl Block {
    /// Whether the block occupies its cell (sand does, air does not).
    pub open spec fn solid(self) -> bool {
        self is Sand
    }

    /// The block's colour.
    pub fn color(&self) -> (c: Rgba8)
        ensures
            c == block_color(*self),
    {
        match self {
            Block::Air => rgba8(0, 0, 0, 0),
            Block::Sand => rgba8(244, 164, 96, 255),
        }
    }

    /// The block's one-byte code: 1 for air, 2 for sand.
    pub fn code(&self) -> (c: u8)
        ensures
            c == match *self {
                Block::Air => 1u8,
                Block::Sand => 2u8,
            },
    {
        match self {
            Block::Air => 1,
            Block::Sand => 2,
        }
    }

    /// Whether the block occupies its cell.
    pub fn is_solid(&self) -> (r: bool)
        ensures
            r == self.solid(),
    {
        match self {
            Block::Air => false,
            Block::Sand => true,
        }
    }
}

/// Number of cells in a chunk.
pub const CHUNK_VOLUME: usize = 32768;

/// Whether `c` is a cell of the chunk: every coordinate in `0..32`.
pub open spec fn cell_in_chunk(c: IVec3) -> bool {
    &&& 0 <= c.x < 32
    &&& 0 <= c.y < 32
    &&& 0 <= c.z < 32
}

/// The position of cell `c` in the chunk's block storage (x-major, then y, then z).
pub open spec fn cell_index(c: IVec3) -> int {
    c.x * 1024 + c.y * 32 + c.z
}

/// The cell stored at position `i` of the chunk's block storage.
pub open spec fn cell_of_index(i: int) -> IVec3 {
    IVec3 { x: (i / 1024) as i32, y: ((i % 1024) / 32) as i32, z: (i % 32) as i32 }
}

/// Whether every intermediate of `x * 32 * 32 + y * 32 + z` fits in an `i32`.
pub open spec fn cell_index_arith_fits(c: IVec3) -> bool {
    &&& i32::MIN <= c.x * 32 <= i32::MAX
    &&& i32::MIN <= c.x * 1024 <= i32::MAX
    &&& i32::MIN <= c.y * 32 <= i32::MAX
    &&& i32::MIN <= c.x * 1024 + c.y * 32 <= i32::MAX
    &&& i32::MIN <= c.x * 1024 + c.y * 32 + c.z <= i32::MAX
}

/// The block at cell `c` of a chunk whose blocks are `blocks`, or `None` when `c`
/// lies outside the chunk.
pub open spec fn block_lookup(blocks: Seq<Block>, c: IVec3) -> Option<Block> {
    if cell_in_chunk(c) {
        Some(blocks[cell_index(c)])
    } else {
        None
    }
}

/// Whether cell `c` holds a solid block; cells outside the chunk are not solid.
pub open spec fn solid_at(blocks: Seq<Block>, c: IVec3) -> bool {
    match block_lookup(blocks, c) {
        Some(b) => b.solid(),
        None => false,
    }
}

/// Cell positions and storage positions are in one-to-one correspondence: each
/// storage position names a cell of the chunk and back, and each cell of the
/// chunk has a storage position that names it.
pub proof fn lemma_cell_index_roundtrip(i: int, c: IVec3)
    ensures
        0 <= i < 32768 ==> cell_in_chunk(cell_of_index(i)) && cell_index(cell_of_index(i)) == i
            && cell_of_index(i).y == (i / 32) % 32,
        cell_in_chunk(c) ==> 0 <= cell_index(c) < 32768 && cell_of_index(cell_index(c)) == c,
{
    if 0 <= i < 32768 {
        let x = i / 1024;
        let r = i % 1024;
        assert(i == x * 1024 + r && 0 <= r < 1024) by (nonlinear_arith)
            requires
                x == i / 1024,
                r == i % 1024,
        ;
        assert(0 <= x < 32) by (nonlinear_arith)
            requires
                i == x * 1024 + r,
                0 <= r < 1024,
                0 <= i < 32768,
        ;
        let y = r / 32;
        let z = r % 32;
        assert(r == y * 32 + z && 0 <= z < 32) by (nonlinear_arith)
            requires
                y == r / 32,
                z == r % 32,
        ;
        assert(0 <= y < 32) by (nonlinear_arith)
            requires
                r == y * 32 + z,
                0 <= z < 32,
                0 <= r < 1024,
        ;
        assert(z == i % 32 && y == (i / 32) % 32) by (nonlinear_arith)
            requires
                i == x * 1024 + y * 32 + z,
                0 <= z < 32,
                0 <= x,
                0 <= y < 32,
        ;
    }
    if cell_in_chunk(c) {
        let x = c.x as int;
        let y = c.y as int;
        let z = c.z as int;
        let i = x * 1024 + y * 32 + z;
        assert(i / 1024 == x && i % 1024 == y * 32 + z) by (nonlinear_arith)
            requires
                i == x * 1024 + y * 32 + z,
                0 <= x < 32,
                0 <= y < 32,
                0 <= z < 32,
        ;
        assert((y * 32 + z) / 32 == y && i % 32 == z && (y * 32 + z) % 32 == z) by (nonlinear_arith)
            requires
                i == x * 1024 + y * 32 + z,
                0 <= x < 32,
                0 <= y < 32,
                0 <= z < 32,
        ;
    }
}

/// Storage positions `0..32768` and the cells of the chunk correspond one to
/// one: position `i` names the cell `(i / 1024, (i / 32) % 32, i % 32)`, which
/// lies in the chunk and whose position is `i` again; and each cell of the
/// chunk has a position in `0..32768` that names it.
pub proof fn lemma_cell_index_bijection()
    ensures
        forall|i: int|
            0 <= i < 32768 ==> {
                &&& #[trigger] cell_of_index(i) == (IVec3 {
                    x: (i / 1024) as i32,
                    y: ((i / 32) % 32) as i32,
                    z: (i % 32) as i32,
                })
                &&& cell_in_chunk(cell_of_index(i))
                &&& cell_index(cell_of_index(i)) == i
            },
        forall|c: IVec3|
            cell_in_chunk(c) ==> 0 <= #[trigger] cell_index(c) < 32768 && cell_of_index(cell_index(c))
                == c,
{
    assert forall|i: int| 0 <= i < 32768 implies {
        &&& #[trigger] cell_of_index(i) == (IVec3 {
            x: (i / 1024) as i32,
            y: ((i / 32) % 32) as i32,
            z: (i % 32) as i32,
        })
        &&& cell_in_chunk(cell_of_index(i))
        &&& cell_index(cell_of_index(i)) == i
    } by {
        lemma_cell_index_roundtrip(i, IVec3 { x: 0, y: 0, z: 0 });
    }
    assert forall|c: IVec3| cell_in_chunk(c) implies 0 <= #[trigger] cell_index(c) < 32768
        && cell_of_index(cell_index(c)) == c by {
        lemma_cell_index_roundtrip(0, c);
    }
}

impl Chunk {
    /// Storage position of cell `cell_loc`: `x * 32 * 32 + y * 32 + z`.
    pub fn cell_loc_to_idx(cell_loc: IVec3) -> (i: usize)
        requires
            cell_index_arith_fits(cell_loc),
            0 <= cell_index(cell_loc) < 32768,
        ensures
            i == cell_index(cell_loc),
    {
        (cell_loc.x * 32 * 32 + cell_loc.y * 32 + cell_loc.z) as usize
    }

    /// Cell stored at storage position `idx`.
    pub fn idx_to_cell_loc(idx: usize) -> (c: IVec3)
        requires
            idx < 32768,
        ensures
            c == cell_of_index(idx as int),
            c == (IVec3 { x: (idx / 1024) as i32, y: ((idx / 32) % 32) as i32, z: (idx % 32) as i32 }),
            cell_in_chunk(c),
            cell_index(c) == idx,
    {
        proof {
            lemma_cell_index_roundtrip(idx as int, IVec3 { x: 0, y: 0, z: 0 });
        }
        let idx_i32 = idx as i32;
        let x = idx_i32 / (32 * 32);
        let x_rem = idx_i32 % (32 * 32);
        let y = x_rem / 32;
        let y_rem = x_rem % 32;
        let z = y_rem;
        proof {
            assert(y_rem == idx % 32) by (nonlinear_arith)
                requires
                    x_rem == idx % 1024,
                    y_rem == x_rem % 32,
                    0 <= idx,
            ;
        }
        IVec3 { x, y, z }
    }
}

/// The block at cell `c` of the chunk whose blocks are `blocks`, or `None` when
/// `c` lies outside the chunk.
pub(crate) fn lookup_block(blocks: &[Block], c: IVec3) -> (r: Option<Block>)
    requires
        blocks@.len() == 32768,
    ensures
        r == block_lookup(blocks@, c),
{
    if c.x < 0 || c.y < 0 || c.z < 0 || c.x > 31 || c.y > 31 || c.z > 31 {
        None
    } else {
        proof {
            lemma_cell_index_roundtrip(0, c);
        }
        Some(blocks[Chunk::cell_loc_to_idx(c)])
    }
}

/// Whether the looked-up block is present and solid.
pub(crate) fn is_solid(block: Option<Block>) -> (r: bool)
    ensures
        r == match block {
            Some(b) => b.solid(),
            None => false,
        },
{
    match block {
        Some(b) => b.is_solid(),
        None => false,
    }
}

/// A cube of 32 x 32 x 32 blocks.
#[derive(Debug)]
pub struct Chunk {
    blocks: Vec<Block>,
}

impl View for Chunk {
    type V = Seq<Block>;

    /// The chunk's blocks, indexed by [`cell_index`].
    closed spec fn view(&self) -> Seq<Block> {
        self.blocks@
    }
}

impl Clone for Chunk {
    fn clone(&self) -> (r: Self)
        ensures
            r@ == self@,
    {
        proof {
            use_type_invariant(self);
        }
        let blocks = self.blocks.clone();
        assert(blocks@ =~= self.blocks@);
        Chunk { blocks }
    }
}

impl Chunk {
    #[verifier::type_invariant]
    spec fn inv(self) -> bool {
        self.blocks@.len() == 32768
    }

    /// A chunk filled with air.
    pub fn new_air() -> (c: Self)
        ensures
            c@ == Seq::new(32768, |i: int| Block::Air),
    {
        let mut blocks: Vec<Block> = Vec::new();
        let mut i: usize = 0;
        while i < CHUNK_VOLUME
            invariant
                i <= 32768,
                blocks@ == Seq::new(i as nat, |j: int| Block::Air),
            decreases 32768 - i,
        {
            blocks.push(Block::Air);
            i = i + 1;
        }
        Chunk { blocks }
    }

    /// A chunk whose block at each cell `c` is `f(c)`; `f` is called once per
    /// cell, in storage order.
    pub fn from_fn<F>(f: F) -> (r: Self)
        where
            F: Fn(IVec3) -> Block,
        requires
            forall|c: IVec3| cell_in_chunk(c) ==> call_requires(f, (c,)),
        ensures
            r@.len() == 32768,
            forall|c: IVec3| cell_in_chunk(c) ==> call_ensures(f, (c,), #[trigger] r@[cell_index(c)]),
    {
        let mut blocks: Vec<Block> = Vec::new();
        let mut i: usize = 0;
        while i < CHUNK_VOLUME
            invariant
                i <= 32768,
                blocks@.len() == i,
                forall|c: IVec3| cell_in_chunk(c) ==> call_requires(f, (c,)),
                forall|j: int| 0 <= j < i ==> call_ensures(f, (cell_of_index(j),), #[trigger] blocks@[j]),
            decreases 32768 - i,
        {
            let c = Chunk::idx_to_cell_loc(i);
            let b = f(c);
            blocks.push(b);
            i = i + 1;
        }
        proof {
            assert forall|c: IVec3| cell_in_chunk(c) implies call_ensures(f, (c,), #[trigger] blocks@[cell_index(c)]) by {
                lemma_cell_index_roundtrip(0, c);
            }
        }
        Chunk { blocks }
    }

    /// The block at `cell_loc`, read from storage position
    /// `x * 32 * 32 + y * 32 + z`, which must lie within the chunk's storage.
    pub fn get_block(&self, cell_loc: IVec3) -> (b: Block)
        requires
            cell_index_arith_fits(cell_loc),
            0 <= cell_index(cell_loc) < 32768,
        ensures
            b == self@[cell_index(cell_loc)],
    {
        proof {
            use_type_invariant(self);
        }
        self.blocks[Chunk::cell_loc_to_idx(cell_loc)]
    }

    /// The block at `cell_loc`, or `None` when it lies outside the chunk.
    pub fn try_get_block(&self, cell_loc: IVec3) -> (r: Option<Block>)
        ensures
            r == block_lookup(self@, cell_loc),
    {
        proof {
            use_type_invariant(self);
        }
        lookup_block(self.blocks.as_slice(), cell_loc)
    }

    /// The chunk's blocks in storage order.
    pub fn iter(&self) -> (r: &[Block])
        ensures
            r@ == self@,
            r@.len() == 32768,
    {
        proof {
            use_type_invariant(self);
        }
        self.blocks.as_slice()
    }

    /// Each cell of the chunk with its block, in storage order.
    pub fn iter_indexed(&self) -> (r: Vec<(IVec3, Block)>)
        ensures
            r@.len() == 32768,
            forall|i: int| 0 <= i < 32768 ==> #[trigger] r@[i] == (cell_of_index(i), self@[i]),
    {
        proof {
            use_type_invariant(self);
        }
        let mut r: Vec<(IVec3, Block)> = Vec::new();
        let mut i: usize = 0;
        while i < CHUNK_VOLUME
            invariant
                i <= 32768,
                self.blocks@.len() == 32768,
                r@.len() == i,
                forall|j: int| 0 <= j < i ==> #[trigger] r@[j] == (cell_of_index(j), self@[j]),
            decreases 32768 - i,
        {
            r.push((Chunk::idx_to_cell_loc(i), self.blocks[i]));
            i = i + 1;
        }
        r
    }
}

/// Reading a chunk by cell: inside the chunk, `try_get_block` finds the same
/// block as `get_block`; outside it finds nothing.
pub proof fn lemma_try_get_agrees_with_get(blocks: Seq<Block>, c: IVec3)
    ensures
        cell_in_chunk(c) ==> cell_index_arith_fits(c) && 0 <= cell_index(c) < 32768
            && block_lookup(blocks, c) == Some(blocks[cell_index(c)]),
        !cell_in_chunk(c) ==> block_lookup(blocks, c) is None,
{
    lemma_cell_index_roundtrip(0, c);
}

/// The stepped sand pyramid: cell `(x, y, z)` holds sand when `z` is at most
/// each of `x`, `y`, `32 - x` and `32 - y`, and air otherwise.
pub open spec fn pyramid_block(c: IVec3) -> Block {
    if c.z <= c.x && c.z <= c.y && c.z <= 32 - c.x && c.z <= 32 - c.y {
        Block::Sand
    } else {
        Block::Air
    }
}

/// The pyramid's shape: a cell holds sand exactly when its height `z` is at most
/// its distance to each of the four sides `x = 0`, `y = 0`, `x = 32`, `y = 32`,
/// and swapping `x` and `y` never changes the block.
pub proof fn lemma_pyramid_shape(c: IVec3)
    ensures
        (pyramid_block(c) == Block::Sand) <==> (c.z <= c.x && c.z <= c.y && c.x + c.z <= 32 && c.y
            + c.z <= 32),
        pyramid_block(c) != Block::Sand ==> pyramid_block(c) == Block::Air,
        pyramid_block(c) == pyramid_block(IVec3 { x: c.y, y: c.x, z: c.z }),
{
}

/// The block of the stepped sand pyramid at cell `c`.
pub fn sand_pyramid(c: IVec3) -> (b: Block)
    requires
        c.z <= c.x && c.z <= c.y ==> 32 - c.x <= i32::MAX,
        c.z <= c.x && c.z <= c.y && c.z <= 32 - c.x ==> 32 - c.y <= i32::MAX,
    ensures
        b == pyramid_block(c),
        (b == Block::Sand) <==> (c.z <= c.x && c.z <= c.y && c.x + c.z <= 32 && c.y + c.z <= 32),
        b == pyramid_block(IVec3 { x: c.y, y: c.x, z: c.z }),
{
    proof {
        lemma_pyramid_shape(c);
    }
    if c.z <= c.x && c.z <= c.y && c.z <= 32 - c.x && c.z <= 32 - c.y {
        Block::Sand
    } else {
        Block::Air
    }
}

/// How many solid blocks meet at a face corner, which decides how much the
/// corner is darkened.
#[derive(Debug, Clone, Copy, PartialEq, Eq)]
pub enum CornerState {
    NoCorner,
    TwoFaces,
    ThreeFaces,
}

/// Data carried by each vertex of a chunk mesh.
#[derive(Debug, Clone, Copy, PartialEq, Eq)]
pub struct ChunkVertexData {
    pub color: Rgba8,
    pub corner_state: CornerState,
}

impl Chunk {
    /// The mesh of the chunk's visible block faces; see
    /// [`meshing::chunk_vertexes`] and [`meshing::chunk_indexes`].
    pub fn to_mesh(&self) -> (m: Mesh<Vertex<ChunkVertexData>>)
        ensures
            m.vertexes@ == meshing::chunk_vertexes(self@, meshing::SLOT_COUNT as nat),
            m.indexes@ == meshing::chunk_indexes(self@, meshing::SLOT_COUNT as nat),
            m.wf(),
            forall|j: int|
                0 <= j < m.vertexes@.len() ==> meshing::is_chunk_mesh_vertex(
                    self@,
                    #[trigger] m.vertexes@[j],
                ),
            meshing::meshes_every_visible_face(self@, m.vertexes@),
            m.indexes@.len() % 3 == 0,
            forall|t: int|
                0 <= t < m.indexes@.len() / 3 ==> #[trigger] crate::mesh::triangle_faces_out(
                    m.vertexes@,
                    m.indexes@,
                    t,
                ),
    {
        proof {
            use_type_invariant(self);
        }
        meshing::chunk_to_mesh(self.blocks.as_slice())
    }
}

} // verus!
