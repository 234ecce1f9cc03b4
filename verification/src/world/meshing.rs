//! Building the mesh of a chunk's visible block faces.
//!
//! Positions in a chunk mesh are corners of the cell lattice: the cell at
//! `(x, y, z)` spans the corners `(x..=x + 1, y..=y + 1, z..=z + 1)`.

use vstd::prelude::*;

use crate::lattice::IVec3;
use crate::mesh::{
    lemma_triangle_normal_translate, triangle_faces_out, is_unit_axis, on_cell_side, offset_indexes, quad_indexes, square_corner, triangle_normal, unit_square, Mesh, Vertex,
};
use super::{
    block_color, cell_index, lemma_cell_index_roundtrip, cell_in_chunk, cell_of_index, is_solid, lookup_block, solid_at, Block, Chunk,
    ChunkVertexData, CornerState,
};

verus! {

/// Number of (cell, face) slots of a chunk: six faces per cell.
pub const SLOT_COUNT: usize = 196608;

/// Outward normal of face `f` of a cell; faces are ordered +X, -X, +Y, -Y, +Z, -Z.
pub open spec fn face_normal(f: int) -> IVec3 {
    if f == 0 {
        IVec3 { x: 1, y: 0, z: 0 }
    } else if f == 1 {
        IVec3 { x: -1i32, y: 0, z: 0 }
    } else if f == 2 {
        IVec3 { x: 0, y: 1, z: 0 }
    } else if f == 3 {
        IVec3 { x: 0, y: -1i32, z: 0 }
    } else if f == 4 {
        IVec3 { x: 0, y: 0, z: 1 }
    } else {
        IVec3 { x: 0, y: 0, z: -1i32 }
    }
}

/// Corner of a cell (as an offset in `{0, 1}` per axis) where corner `(u, v)` of
/// the unit square lands when the square is turned to lie on face `f`, keeping
/// its triangles counter-clockwise seen from outside the cell.
pub open spec fn face_corner(f: int, u: int, v: int) -> IVec3 {
    if f == 0 {
        IVec3 { x: 1, y: v as i32, z: (1 - u) as i32 }
    } else if f == 1 {
        IVec3 { x: 0, y: v as i32, z: u as i32 }
    } else if f == 2 {
        IVec3 { x: u as i32, y: 1, z: (1 - v) as i32 }
    } else if f == 3 {
        IVec3 { x: u as i32, y: 0, z: v as i32 }
    } else if f == 4 {
        IVec3 { x: u as i32, y: v as i32, z: 1 }
    } else {
        IVec3 { x: u as i32, y: (1 - v) as i32, z: 0 }
    }
}

/// Every face is wound outward: both triangles of face `f` (unit-square corners
/// `0, 1, 3` and `3, 2, 0`) run counter-clockwise seen from outside the cell,
/// their cross products being the face's outward normal.
pub proof fn lemma_faces_wind_outward(f: int) by (nonlinear_arith)
    requires
        0 <= f < 6,
    ensures
        ({
            let n = face_normal(f);
            let c0 = face_corner(f, 0, 0);
            let c1 = face_corner(f, 1, 0);
            let c2 = face_corner(f, 0, 1);
            let c3 = face_corner(f, 1, 1);
            &&& triangle_normal(c0, c1, c3) == (n.x as int, n.y as int, n.z as int)
            &&& triangle_normal(c3, c2, c0) == (n.x as int, n.y as int, n.z as int)
        }),
{
}

/// `c` moved by `(dx, dy, dz)`.
pub open spec fn shifted(c: IVec3, dx: int, dy: int, dz: int) -> IVec3 {
    IVec3 { x: (c.x + dx) as i32, y: (c.y + dy) as i32, z: (c.z + dz) as i32 }
}

/// Whether face `f` of the cell stored at position `i` is drawn: the cell is
/// solid and the neighbour across that face is not (cells outside the chunk
/// count as not solid).
pub open spec fn face_visible(blocks: Seq<Block>, i: int, f: int) -> bool {
    let n = face_normal(f);
    blocks[i].solid() && !solid_at(blocks, shifted(cell_of_index(i), n.x as int, n.y as int, n.z as int))
}

/// Component of `v` along `axis` (0 for x, 1 for y, 2 for z).
pub open spec fn component(v: IVec3, axis: int) -> int {
    if axis == 0 {
        v.x as int
    } else if axis == 1 {
        v.y as int
    } else {
        v.z as int
    }
}

/// The unit step along `axis` in direction `sign` (`+1` or `-1`).
pub open spec fn axis_step(axis: int, sign: int) -> (int, int, int) {
    if axis == 0 {
        (sign, 0, 0)
    } else if axis == 1 {
        (0, sign, 0)
    } else {
        (0, 0, sign)
    }
}

/// `c` moved by the sum of the steps `s` and `t`.
pub open spec fn stepped(c: IVec3, s: (int, int, int), t: (int, int, int)) -> IVec3 {
    shifted(c, s.0 + t.0, s.1 + t.1, s.2 + t.2)
}

/// Occlusion of the corner at cell offset `off` on face `f` of `cell`. Let `n`
/// be the face's outward normal and `p`, `q` the two axes lying in the face;
/// the corner lies towards `cell` on the side `sp` along `p` and `sq` along
/// `q`. Three cells of the layer outside the face touch the corner: the edge
/// neighbours `cell + n + sp` and `cell + n + sq`, and the diagonal one
/// `cell + n + sp + sq`. Two solid edge neighbours make three faces meet; any
/// one solid of the three makes two.
pub open spec fn corner_state_at(blocks: Seq<Block>, cell: IVec3, f: int, off: IVec3) -> CornerState {
    let n = face_normal(f);
    let out = (n.x as int, n.y as int, n.z as int);
    let p = (f / 2 + 1) % 3;
    let q = (f / 2 + 2) % 3;
    let sp = axis_step(p, 2 * component(off, p) - 1);
    let sq = axis_step(q, 2 * component(off, q) - 1);
    let edge_p = solid_at(blocks, stepped(cell, out, sp));
    let edge_q = solid_at(blocks, stepped(cell, out, sq));
    let diagonal = solid_at(
        blocks,
        shifted(cell, out.0 + sp.0 + sq.0, out.1 + sp.1 + sq.1, out.2 + sp.2 + sq.2),
    );
    if edge_p && edge_q {
        CornerState::ThreeFaces
    } else if edge_p || edge_q || diagonal {
        CornerState::TwoFaces
    } else {
        CornerState::NoCorner
    }
}

/// The vertex of face `f` of the cell stored at `i` that comes from unit-square
/// corner `(u, v)`.
pub open spec fn face_vertex(blocks: Seq<Block>, i: int, f: int, u: int, v: int) -> Vertex<ChunkVertexData> {
    let cell = cell_of_index(i);
    let off = face_corner(f, u, v);
    Vertex {
        position: shifted(cell, off.x as int, off.y as int, off.z as int),
        normal: face_normal(f),
        data: ChunkVertexData {
            color: block_color(blocks[i]),
            corner_state: corner_state_at(blocks, cell, f, off),
        },
    }
}

/// The four vertexes of face `f` of the cell stored at `i`, in unit-square
/// corner order.
pub open spec fn face_vertexes(blocks: Seq<Block>, i: int, f: int) -> Seq<Vertex<ChunkVertexData>> {
    Seq::new(4, |k: int| face_vertex(blocks, i, f, k % 2, k / 2))
}

/// Vertexes of the mesh of the first `n` slots, slot `s` being face `s % 6` of
/// the cell stored at `s / 6`: each visible face adds its four vertexes.
pub open spec fn chunk_vertexes(blocks: Seq<Block>, n: nat) -> Seq<Vertex<ChunkVertexData>>
    decreases n,
{
    if n == 0 {
        Seq::empty()
    } else {
        let s = n - 1;
        let prev = chunk_vertexes(blocks, s as nat);
        if face_visible(blocks, s / 6, s % 6) {
            prev + face_vertexes(blocks, s / 6, s % 6)
        } else {
            prev
        }
    }
}

/// Indexes of the mesh of the first `n` slots: each visible face adds two
/// triangles over the four vertexes it added.
pub open spec fn chunk_indexes(blocks: Seq<Block>, n: nat) -> Seq<u32>
    decreases n,
{
    if n == 0 {
        Seq::empty()
    } else {
        let s = n - 1;
        let prev = chunk_indexes(blocks, s as nat);
        if face_visible(blocks, s as int / 6, s as int % 6) {
            prev + quad_indexes(chunk_vertexes(blocks, s as nat).len() as int)
        } else {
            prev
        }
    }
}

/// Whether `v` is a vertex that the mesh of a chunk with blocks `blocks` may
/// hold for the cell `c`, judged from the blocks alone:
/// - `c` is solid and `v` carries its colour;
/// - `v`'s normal is a unit axis vector and the cell across it is not solid;
/// - `v` is a corner of `c` on the side of `c` that the normal points to;
/// - with `d = 2 * (position - c) - 1`, the cells outside the face touching the
///   corner are the diagonal one `c + d` and, for each axis lying in the face,
///   `c + d` with that axis set to zero; the corner is `ThreeFaces` when both of
///   those edge cells are solid, `NoCorner` when none of the three is, and
///   `TwoFaces` otherwise.
pub open spec fn is_face_corner_of(blocks: Seq<Block>, c: IVec3, v: Vertex<ChunkVertexData>) -> bool {
    let n = v.normal;
    let ox = v.position.x - c.x;
    let oy = v.position.y - c.y;
    let oz = v.position.z - c.z;
    let dx = 2 * ox - 1;
    let dy = 2 * oy - 1;
    let dz = 2 * oz - 1;
    let diagonal = solid_at(blocks, shifted(c, dx, dy, dz));
    let edge_without_x = solid_at(blocks, shifted(c, 0, dy, dz));
    let edge_without_y = solid_at(blocks, shifted(c, dx, 0, dz));
    let edge_without_z = solid_at(blocks, shifted(c, dx, dy, 0));
    let any_edge = (n.x == 0 && edge_without_x) || (n.y == 0 && edge_without_y) || (n.z == 0
        && edge_without_z);
    let all_edges = (n.x != 0 || edge_without_x) && (n.y != 0 || edge_without_y) && (n.z != 0
        || edge_without_z);
    &&& blocks[cell_index(c)].solid()
    &&& v.data.color == block_color(blocks[cell_index(c)])
    &&& is_unit_axis(n)
    &&& !solid_at(blocks, shifted(c, n.x as int, n.y as int, n.z as int))
    &&& on_cell_side(ox, oy, oz, n)
    &&& v.data.corner_state == if all_edges {
        CornerState::ThreeFaces
    } else if any_edge || diagonal {
        CornerState::TwoFaces
    } else {
        CornerState::NoCorner
    }
}

/// Whether `v` is, for some cell of the chunk, a vertex the chunk mesh may hold
/// for that cell.
pub open spec fn is_chunk_mesh_vertex(blocks: Seq<Block>, v: Vertex<ChunkVertexData>) -> bool {
    exists|c: IVec3| cell_in_chunk(c) && #[trigger] is_face_corner_of(blocks, c, v)
}

/// Each vertex of a visible face is a corner of its cell on the face's own
/// side, carrying the cell's colour and the occlusion of the three outer
/// cells at that corner.
pub proof fn lemma_face_vertex_is_face_corner(blocks: Seq<Block>, i: int, f: int, k: int)
    requires
        blocks.len() == 32768,
        0 <= i < 32768,
        0 <= f < 6,
        0 <= k < 4,
        face_visible(blocks, i, f),
    ensures
        cell_in_chunk(cell_of_index(i)),
        is_face_corner_of(blocks, cell_of_index(i), face_vertex(blocks, i, f, k % 2, k / 2)),
{
    lemma_cell_index_roundtrip(i, IVec3 { x: 0, y: 0, z: 0 });
    let c = cell_of_index(i);
    assert(cell_index(c) == i);
}

/// Every vertex of the chunk mesh is a corner of a solid cell's visible face:
/// on that face's side of the cell, with the cell's colour, and with the
/// occlusion given by the three cells outside the face at that corner.
pub proof fn lemma_chunk_vertexes_are_face_corners(blocks: Seq<Block>, n: nat)
    requires
        blocks.len() == 32768,
        n <= SLOT_COUNT,
    ensures
        forall|j: int|
            0 <= j < chunk_vertexes(blocks, n).len() ==> is_chunk_mesh_vertex(
                blocks,
                #[trigger] chunk_vertexes(blocks, n)[j],
            ),
    decreases n,
{
    if n > 0 {
        let s = (n - 1) as int;
        lemma_chunk_vertexes_are_face_corners(blocks, (n - 1) as nat);
        let prev = chunk_vertexes(blocks, (n - 1) as nat);
        if face_visible(blocks, s / 6, s % 6) {
            assert forall|j: int|
                0 <= j < chunk_vertexes(blocks, n).len() implies is_chunk_mesh_vertex(
                blocks,
                #[trigger] chunk_vertexes(blocks, n)[j],
            ) by {
                if j >= prev.len() {
                    let k = j - prev.len();
                    lemma_face_vertex_is_face_corner(blocks, s / 6, s % 6, k);
                    assert(chunk_vertexes(blocks, n)[j] == face_vertex(blocks, s / 6, s % 6, k % 2, k / 2));
                    assert(is_face_corner_of(blocks, cell_of_index(s / 6), chunk_vertexes(blocks, n)[j]));
                } else {
                    assert(chunk_vertexes(blocks, n)[j] == prev[j]);
                }
            }
        } else {
            assert forall|j: int|
                0 <= j < chunk_vertexes(blocks, n).len() implies is_chunk_mesh_vertex(
                blocks,
                #[trigger] chunk_vertexes(blocks, n)[j],
            ) by {
                assert(chunk_vertexes(blocks, n)[j] == prev[j]);
            }
        }
    }
}

/// The mesh of more slots extends the mesh of fewer.
proof fn lemma_chunk_vertexes_prefix(blocks: Seq<Block>, m: nat, n: nat)
    requires
        m <= n,
    ensures
        chunk_vertexes(blocks, m).len() <= chunk_vertexes(blocks, n).len(),
        forall|j: int|
            0 <= j < chunk_vertexes(blocks, m).len() ==> #[trigger] chunk_vertexes(blocks, n)[j]
                == chunk_vertexes(blocks, m)[j],
    decreases n - m,
{
    if m < n {
        lemma_chunk_vertexes_prefix(blocks, m, (n - 1) as nat);
    }
}

/// Every face of a solid cell whose neighbour across it is not solid (cells
/// outside the chunk count as not solid) appears in the chunk mesh: for each
/// such cell `c` and unit axis direction `n`, the mesh holds a corner of `c`'s
/// face on that side, with normal `n`.
pub proof fn lemma_visible_faces_are_meshed(blocks: Seq<Block>, c: IVec3, n: IVec3)
    requires
        blocks.len() == 32768,
        cell_in_chunk(c),
        blocks[cell_index(c)].solid(),
        is_unit_axis(n),
        !solid_at(blocks, shifted(c, n.x as int, n.y as int, n.z as int)),
    ensures
        exists|j: int|
            0 <= j < chunk_vertexes(blocks, SLOT_COUNT as nat).len() && (#[trigger] chunk_vertexes(
                blocks,
                SLOT_COUNT as nat,
            )[j]).normal == n && is_face_corner_of(blocks, c, chunk_vertexes(blocks, SLOT_COUNT as nat)[j]),
{
    lemma_cell_index_roundtrip(0, c);
    let i = cell_index(c);
    let f: int = if n.x == 1 {
        0
    } else if n.x == -1 {
        1
    } else if n.y == 1 {
        2
    } else if n.y == -1 {
        3
    } else if n.z == 1 {
        4
    } else {
        5
    };
    assert(face_normal(f) == n);
    let s = 6 * i + f;
    assert(s / 6 == i && s % 6 == f);
    assert(face_visible(blocks, i, f));
    let before = chunk_vertexes(blocks, s as nat);
    let after = chunk_vertexes(blocks, (s + 1) as nat);
    assert(after == before + face_vertexes(blocks, i, f));
    let j = before.len() as int;
    assert(after[j] == face_vertex(blocks, i, f, 0, 0));
    lemma_face_vertex_is_face_corner(blocks, i, f, 0);
    lemma_chunk_vertexes_prefix(blocks, (s + 1) as nat, SLOT_COUNT as nat);
    assert(chunk_vertexes(blocks, SLOT_COUNT as nat)[j] == after[j]);
}

/// Whether the mesh vertexes `vs` hold, for every solid cell of the chunk and
/// every unit axis direction across which the neighbour is not solid, a corner
/// of that cell's face on that side with that normal.
pub open spec fn meshes_every_visible_face(blocks: Seq<Block>, vs: Seq<Vertex<ChunkVertexData>>) -> bool {
    forall|c: IVec3, n: IVec3|
        #![trigger cell_in_chunk(c), is_unit_axis(n)]
        cell_in_chunk(c) && blocks[cell_index(c)].solid() && is_unit_axis(n) && !solid_at(
            blocks,
            shifted(c, n.x as int, n.y as int, n.z as int),
        ) ==> exists|j: int|
            0 <= j < vs.len() && (#[trigger] vs[j]).normal == n && is_face_corner_of(blocks, c, vs[j])
}

/// The two triangles that a visible face adds to the chunk mesh face out of
/// its cell.
proof fn lemma_new_face_triangles_face_out(blocks: Seq<Block>, m: nat)
    requires
        blocks.len() == 32768,
        m < SLOT_COUNT,
        face_visible(blocks, m as int / 6, m as int % 6),
    ensures
        ({
            let tp = chunk_indexes(blocks, m).len() as int / 3;
            let n = (m + 1) as nat;
            &&& chunk_indexes(blocks, m).len() == 3 * tp
            &&& triangle_faces_out(chunk_vertexes(blocks, n), chunk_indexes(blocks, n), tp)
            &&& triangle_faces_out(chunk_vertexes(blocks, n), chunk_indexes(blocks, n), tp + 1)
        }),
{
    let n = (m + 1) as nat;
    let s = m as int;
    lemma_chunk_mesh_shape(blocks, m);
    lemma_chunk_mesh_shape(blocks, n);
    let pv = chunk_vertexes(blocks, m);
    let pi = chunk_indexes(blocks, m);
    let vs = chunk_vertexes(blocks, n);
    let is = chunk_indexes(blocks, n);
    let i = s / 6;
    let f = s % 6;
    let base = pv.len() as int;
    let tp = pi.len() as int / 3;
    assert(pi.len() == 3 * tp);
    lemma_cell_index_roundtrip(i, IVec3 { x: 0, y: 0, z: 0 });
    lemma_faces_wind_outward(f);
    let fv = face_vertexes(blocks, i, f);
    assert(vs == pv + fv);
    let t = tp;
    assert(is[3 * t] == base && is[3 * t + 1] == base + 1 && is[3 * t + 2] == base + 3);
    lemma_triangle_normal_translate(
        face_corner(f, 0, 0),
        face_corner(f, 1, 0),
        face_corner(f, 1, 1),
        vs[base].position,
        vs[base + 1].position,
        vs[base + 3].position,
    );
    let t = tp + 1;
    assert(is[3 * t] == base + 3 && is[3 * t + 1] == base + 2 && is[3 * t + 2] == base);
    lemma_triangle_normal_translate(
        face_corner(f, 1, 1),
        face_corner(f, 0, 1),
        face_corner(f, 0, 0),
        vs[base + 3].position,
        vs[base + 2].position,
        vs[base].position,
    );
}

/// One more slot keeps every triangle of the chunk mesh facing out of its cell.
proof fn lemma_slot_keeps_triangles_facing_out(blocks: Seq<Block>, m: nat)
    requires
        blocks.len() == 32768,
        m < SLOT_COUNT,
        chunk_indexes(blocks, m).len() % 3 == 0,
        forall|t: int|
            0 <= t < chunk_indexes(blocks, m).len() / 3 ==> #[trigger] triangle_faces_out(
                chunk_vertexes(blocks, m),
                chunk_indexes(blocks, m),
                t,
            ),
    ensures
        chunk_indexes(blocks, (m + 1) as nat).len() % 3 == 0,
        forall|t: int|
            0 <= t < chunk_indexes(blocks, (m + 1) as nat).len() / 3 ==> #[trigger] triangle_faces_out(
                chunk_vertexes(blocks, (m + 1) as nat),
                chunk_indexes(blocks, (m + 1) as nat),
                t,
            ),
{
    let n = (m + 1) as nat;
    let s = m as int;
    lemma_chunk_mesh_shape(blocks, m);
    lemma_chunk_mesh_shape(blocks, n);
    let pv = chunk_vertexes(blocks, m);
    let pi = chunk_indexes(blocks, m);
    let vs = chunk_vertexes(blocks, n);
    let is = chunk_indexes(blocks, n);
    if face_visible(blocks, s / 6, s % 6) {
        let tp = pi.len() as int / 3;
        let fv = face_vertexes(blocks, s / 6, s % 6);
        let q = quad_indexes(pv.len() as int);
        assert(vs == pv + fv);
        assert(is == pi + q);
        lemma_new_face_triangles_face_out(blocks, m);
        assert forall|t: int| 0 <= t < is.len() / 3 implies #[trigger] triangle_faces_out(vs, is, t) by {
            if t < tp {
                assert(triangle_faces_out(pv, pi, t));
                assert(is[3 * t] == pi[3 * t]);
                assert(is[3 * t + 1] == pi[3 * t + 1]);
                assert(is[3 * t + 2] == pi[3 * t + 2]);
                assert(pi[3 * t] < pv.len() && pi[3 * t + 1] < pv.len() && pi[3 * t + 2] < pv.len());
            }
        }
    } else {
        assert(vs == pv);
        assert(is == pi);
    }
}

/// Every triangle of the chunk mesh faces out of its cell: its three corners
/// share the face normal, and it runs counter-clockwise seen from outside, its
/// cross product being that normal.
pub proof fn lemma_chunk_triangles_face_out(blocks: Seq<Block>, n: nat)
    requires
        blocks.len() == 32768,
        n <= SLOT_COUNT,
    ensures
        chunk_indexes(blocks, n).len() % 3 == 0,
        forall|t: int|
            0 <= t < chunk_indexes(blocks, n).len() / 3 ==> #[trigger] triangle_faces_out(
                chunk_vertexes(blocks, n),
                chunk_indexes(blocks, n),
                t,
            ),
    decreases n,
{
    if n > 0 {
        let m = (n - 1) as nat;
        lemma_chunk_triangles_face_out(blocks, m);
        lemma_slot_keeps_triangles_facing_out(blocks, m);
    }
}

/// Number of visible faces among the first `n` slots.
pub open spec fn visible_faces(blocks: Seq<Block>, n: nat) -> nat
    decreases n,
{
    if n == 0 {
        0
    } else {
        let s = n - 1;
        visible_faces(blocks, s as nat) + if face_visible(blocks, s / 6, s % 6) {
            1nat
        } else {
            0nat
        }
    }
}

/// The chunk mesh has four vertexes and six indexes per visible face, and each
/// index names one of its vertexes.
pub proof fn lemma_chunk_mesh_shape(blocks: Seq<Block>, n: nat)
    ensures
        chunk_vertexes(blocks, n).len() == 4 * visible_faces(blocks, n),
        chunk_indexes(blocks, n).len() == 6 * visible_faces(blocks, n),
        visible_faces(blocks, n) <= n,
        forall|j: int|
            0 <= j < chunk_indexes(blocks, n).len() ==> #[trigger] chunk_indexes(blocks, n)[j]
                < chunk_vertexes(blocks, n).len(),
    decreases n,
{
    if n > 0 {
        let s = (n - 1) as nat;
        lemma_chunk_mesh_shape(blocks, s);
        if face_visible(blocks, s as int / 6, s as int % 6) {
            let prev = chunk_indexes(blocks, s);
            let base = chunk_vertexes(blocks, s).len() as int;
            assert(base <= 4 * s);
            assert forall|j: int|
                0 <= j < chunk_indexes(blocks, n).len() implies #[trigger] chunk_indexes(blocks, n)[j]
                < chunk_vertexes(blocks, n).len() by {
                if j >= prev.len() {
                    let t = j - prev.len();
                    assert(chunk_indexes(blocks, n)[j] == quad_indexes(base)[t]);
                }
            }
        }
    }
}

/// Outward normal of face `f`.
fn face_normal_exec(f: usize) -> (n: IVec3)
    requires
        f < 6,
    ensures
        n == face_normal(f as int),
{
    if f == 0 {
        IVec3 { x: 1, y: 0, z: 0 }
    } else if f == 1 {
        IVec3 { x: -1, y: 0, z: 0 }
    } else if f == 2 {
        IVec3 { x: 0, y: 1, z: 0 }
    } else if f == 3 {
        IVec3 { x: 0, y: -1, z: 0 }
    } else if f == 4 {
        IVec3 { x: 0, y: 0, z: 1 }
    } else {
        IVec3 { x: 0, y: 0, z: -1 }
    }
}

/// Cell corner reached by unit-square corner `(u, v)` on face `f`.
fn face_corner_exec(f: usize, u: i32, v: i32) -> (c: IVec3)
    requires
        f < 6,
        0 <= u <= 1,
        0 <= v <= 1,
    ensures
        c == face_corner(f as int, u as int, v as int),
{
    if f == 0 {
        IVec3 { x: 1, y: v, z: 1 - u }
    } else if f == 1 {
        IVec3 { x: 0, y: v, z: u }
    } else if f == 2 {
        IVec3 { x: u, y: 1, z: 1 - v }
    } else if f == 3 {
        IVec3 { x: u, y: 0, z: v }
    } else if f == 4 {
        IVec3 { x: u, y: v, z: 1 }
    } else {
        IVec3 { x: u, y: 1 - v, z: 0 }
    }
}

/// Whether the cell `cell` moved by `(dx, dy, dz)` holds a solid block.
fn solid_neighbour(blocks: &[Block], cell: IVec3, dx: i32, dy: i32, dz: i32) -> (r: bool)
    requires
        blocks@.len() == 32768,
        cell_in_chunk(cell),
        -3 <= dx <= 3,
        -3 <= dy <= 3,
        -3 <= dz <= 3,
    ensures
        r == solid_at(blocks@, shifted(cell, dx as int, dy as int, dz as int)),
{
    is_solid(lookup_block(blocks, IVec3 { x: cell.x + dx, y: cell.y + dy, z: cell.z + dz }))
}

/// Component of `v` along `axis`.
fn component_exec(v: IVec3, axis: usize) -> (r: i32)
    requires
        axis < 3,
    ensures
        r == component(v, axis as int),
{
    if axis == 0 {
        v.x
    } else if axis == 1 {
        v.y
    } else {
        v.z
    }
}

/// The unit step along `axis` in direction `sign`.
fn axis_step_exec(axis: usize, sign: i32) -> (r: (i32, i32, i32))
    requires
        axis < 3,
        -1 <= sign <= 1,
    ensures
        (r.0 as int, r.1 as int, r.2 as int) == axis_step(axis as int, sign as int),
{
    if axis == 0 {
        (sign, 0, 0)
    } else if axis == 1 {
        (0, sign, 0)
    } else {
        (0, 0, sign)
    }
}

/// Occlusion of the corner at offset `off` of face `f` of `cell`.
fn corner_state(blocks: &[Block], cell: IVec3, f: usize, off: IVec3) -> (s: CornerState)
    requires
        blocks@.len() == 32768,
        cell_in_chunk(cell),
        f < 6,
        0 <= off.x <= 1,
        0 <= off.y <= 1,
        0 <= off.z <= 1,
    ensures
        s == corner_state_at(blocks@, cell, f as int, off),
{
    let n = face_normal_exec(f);
    let p = (f / 2 + 1) % 3;
    let q = (f / 2 + 2) % 3;
    let sp = axis_step_exec(p, 2 * component_exec(off, p) - 1);
    let sq = axis_step_exec(q, 2 * component_exec(off, q) - 1);
    let edge_p = solid_neighbour(blocks, cell, n.x + sp.0, n.y + sp.1, n.z + sp.2);
    let edge_q = solid_neighbour(blocks, cell, n.x + sq.0, n.y + sq.1, n.z + sq.2);
    let diagonal = solid_neighbour(
        blocks,
        cell,
        n.x + sp.0 + sq.0,
        n.y + sp.1 + sq.1,
        n.z + sp.2 + sq.2,
    );
    if edge_p && edge_q {
        CornerState::ThreeFaces
    } else if edge_p || edge_q || diagonal {
        CornerState::TwoFaces
    } else {
        CornerState::NoCorner
    }
}

/// The two-triangle mesh of face `f` of the cell stored at `idx`: the unit
/// square turned onto that face, with the block's colour and each corner's
/// occlusion as vertex data.
fn face_mesh(blocks: &[Block], idx: usize, f: usize) -> (m: Mesh<Vertex<ChunkVertexData>>)
    requires
        blocks@.len() == 32768,
        idx < 32768,
        f < 6,
    ensures
        m.vertexes@ == face_vertexes(blocks@, idx as int, f as int),
        m.indexes@ == quad_indexes(0),
{
    let cell = Chunk::idx_to_cell_loc(idx);
    let color = blocks[idx].color();
    let normal = face_normal_exec(f);
    let place = |v: Vertex<()>| -> (w: Vertex<ChunkVertexData>)
        requires
            blocks@.len() == 32768,
            idx < 32768,
            f < 6,
            cell == cell_of_index(idx as int),
            cell_in_chunk(cell),
            normal == face_normal(f as int),
            color == block_color(blocks@[idx as int]),
            0 <= v.position.x <= 1,
            0 <= v.position.y <= 1,
        ensures
            w == face_vertex(blocks@, idx as int, f as int, v.position.x as int, v.position.y as int),
        {
            let off = face_corner_exec(f, v.position.x, v.position.y);
            let corner_state = corner_state(blocks, cell, f, off);
            Vertex {
                position: IVec3 { x: cell.x + off.x, y: cell.y + off.y, z: cell.z + off.z },
                normal,
                data: ChunkVertexData { color, corner_state },
            }
        };
    let square = unit_square();
    let face = square.map_vertexes(place);
    proof {
        assert forall|k: int| 0 <= k < 4 implies #[trigger] face.vertexes@[k] == face_vertexes(blocks@, idx as int, f as int)[k] by {
            assert(square.vertexes@[k].position == square_corner(k));
        }
        assert(face.vertexes@ =~= face_vertexes(blocks@, idx as int, f as int));
    }
    face
}

/// The mesh of all visible block faces of the chunk whose blocks are `blocks`,
/// cell by cell in storage order and face by face in the order +X, -X, +Y, -Y,
/// +Z, -Z.
pub fn chunk_to_mesh(blocks: &[Block]) -> (m: Mesh<Vertex<ChunkVertexData>>)
    requires
        blocks@.len() == 32768,
    ensures
        m.vertexes@ == chunk_vertexes(blocks@, SLOT_COUNT as nat),
        m.indexes@ == chunk_indexes(blocks@, SLOT_COUNT as nat),
        m.wf(),
        forall|j: int|
            0 <= j < m.vertexes@.len() ==> is_chunk_mesh_vertex(blocks@, #[trigger] m.vertexes@[j]),
        meshes_every_visible_face(blocks@, m.vertexes@),
        m.indexes@.len() % 3 == 0,
        forall|t: int|
            0 <= t < m.indexes@.len() / 3 ==> #[trigger] triangle_faces_out(m.vertexes@, m.indexes@, t),
{
    let mut mesh: Mesh<Vertex<ChunkVertexData>> = Mesh::new_empty();
    let mut idx: usize = 0;
    while idx < 32768
        invariant
            blocks@.len() == 32768,
            idx <= 32768,
            mesh.vertexes@ == chunk_vertexes(blocks@, (6 * idx) as nat),
            mesh.indexes@ == chunk_indexes(blocks@, (6 * idx) as nat),
        decreases 32768 - idx,
    {
        let cell = Chunk::idx_to_cell_loc(idx);
        let block = blocks[idx];
        let mut f: usize = 0;
        while f < 6
            invariant
                blocks@.len() == 32768,
                idx < 32768,
                f <= 6,
                cell == cell_of_index(idx as int),
                cell_in_chunk(cell),
                block == blocks@[idx as int],
                mesh.vertexes@ == chunk_vertexes(blocks@, (6 * idx + f) as nat),
                mesh.indexes@ == chunk_indexes(blocks@, (6 * idx + f) as nat),
            decreases 6 - f,
        {
            let ghost n = (6 * idx + f) as nat;
            proof {
                lemma_chunk_mesh_shape(blocks@, n);
                assert(n / 6 == idx && n % 6 == f);
            }
            let delta = face_normal_exec(f);
            let cull_face = !block.is_solid() || solid_neighbour(blocks, cell, delta.x, delta.y, delta.z);
            if !cull_face {
                let mut face = face_mesh(blocks, idx, f);
                mesh.append(&mut face);
                assert(mesh.indexes@ =~= chunk_indexes(blocks@, n + 1)) by {
                    assert(offset_indexes(quad_indexes(0), chunk_vertexes(blocks@, n).len() as int)
                        =~= quad_indexes(chunk_vertexes(blocks@, n).len() as int));
                }
            }
            f = f + 1;
        }
        idx = idx + 1;
    }
    proof {
        lemma_chunk_mesh_shape(blocks@, SLOT_COUNT as nat);
        lemma_chunk_vertexes_are_face_corners(blocks@, SLOT_COUNT as nat);
        lemma_chunk_triangles_face_out(blocks@, SLOT_COUNT as nat);
        assert forall|c: IVec3, n: IVec3|
            #![trigger cell_in_chunk(c), is_unit_axis(n)]
            cell_in_chunk(c) && blocks@[cell_index(c)].solid() && is_unit_axis(n) && !solid_at(
                blocks@,
                shifted(c, n.x as int, n.y as int, n.z as int),
            ) implies exists|j: int|
            0 <= j < mesh.vertexes@.len() && (#[trigger] mesh.vertexes@[j]).normal == n
                && is_face_corner_of(blocks@, c, mesh.vertexes@[j]) by {
            lemma_visible_faces_are_meshed(blocks@, c, n);
        }
    }
    mesh
}

} // verus!
