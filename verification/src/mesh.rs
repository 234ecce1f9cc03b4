//! Indexed triangle meshes.

use vstd::prelude::*;

use crate::color::{rgba8, Rgba8};
use crate::lattice::IVec3;

verus! {

/// A mesh vertex: a lattice position, a normal direction and attached data.
#[derive(Debug, Clone)]
pub struct Vertex<D> {
    pub position: IVec3,
    pub normal: IVec3,
    pub data: D,
}

impl<D> Vertex<D> {
    /// Replaces the vertex's data with `f` applied to it, keeping the geometry.
    pub fn map_data<D2, F>(self, mut f: F) -> (r: Vertex<D2>)
        where
            F: FnMut(D) -> D2,
        requires
            call_requires(f, (self.data,)),
        ensures
            r.position == self.position,
            r.normal == self.normal,
            call_ensures(f, (self.data,), r.data),
    {
        Vertex { position: self.position, normal: self.normal, data: f(self.data) }
    }
}

/// A triangle list: every three consecutive entries of `indexes` name the
/// vertexes of one triangle.
#[derive(Debug, Clone)]
pub struct Mesh<V> {
    pub vertexes: Vec<V>,
    pub indexes: Vec<u32>,
}

/// `indexes` with `offset` added to each entry.
pub open spec fn offset_indexes(indexes: Seq<u32>, offset: int) -> Seq<u32> {
    indexes.map_values(|i: u32| (i + offset) as u32)
}

impl<V> Mesh<V> {
    /// Every index names a vertex of the mesh.
    pub open spec fn wf(&self) -> bool {
        forall|j: int| 0 <= j < self.indexes@.len() ==> #[trigger] self.indexes@[j] < self.vertexes@.len()
    }

    /// The vertex named by each index, in index order: the triangles' corners.
    pub open spec fn corners(&self) -> Seq<V> {
        self.indexes@.map_values(|i: u32| self.vertexes@[i as int])
    }

    /// A mesh with no vertexes and no indexes.
    pub fn new_empty() -> (r: Self)
        ensures
            r.vertexes@ == Seq::<V>::empty(),
            r.indexes@ == Seq::<u32>::empty(),
    {
        Mesh { vertexes: Vec::new(), indexes: Vec::new() }
    }

    /// A mesh with the same indexes whose vertexes are `f` applied to each vertex,
    /// in order.
    pub fn map_vertexes<V2, F>(self, mut f: F) -> (r: Mesh<V2>)
        where
            F: FnMut(V) -> V2,
        requires
            forall|i: int|
                0 <= i < self.vertexes@.len() ==> call_requires(f, (#[trigger] self.vertexes@[i],)),
        ensures
            r.vertexes@.len() == self.vertexes@.len(),
            forall|i: int|
                0 <= i < self.vertexes@.len() ==> call_ensures(
                    f,
                    (#[trigger] self.vertexes@[i],),
                    r.vertexes@[i],
                ),
            r.indexes@ == self.indexes@,
    {
        broadcast use {vstd::std_specs::vec::axiom_spec_into_iter, vstd::function::group_function_axioms};
        let ghost f0 = f;
        let ghost src = self.vertexes@;
        let mut out: Vec<V2> = Vec::new();
        for v in it: self.vertexes.into_iter()
            invariant
                f == f0,
                it.seq() == src,
                out@.len() == it.index(),
                forall|i: int| 0 <= i < src.len() ==> call_requires(f, (#[trigger] src[i],)),
                forall|i: int| 0 <= i < it.index() ==> call_ensures(f, (#[trigger] src[i],), out@[i]),
        {
            out.push(f(v));
        }
        Mesh { vertexes: out, indexes: self.indexes }
    }

    /// Moves all of `other` to the end of `self`; the moved indexes are shifted by
    /// the number of vertexes `self` had, so they still name the same vertexes.
    pub fn append(&mut self, other: &mut Self)
        requires
            old(self).vertexes@.len() <= u32::MAX,
            forall|j: int|
                0 <= j < old(other).indexes@.len() ==> #[trigger] old(other).indexes@[j]
                    + old(self).vertexes@.len() <= u32::MAX,
        ensures
            final(self).vertexes@ == old(self).vertexes@ + old(other).vertexes@,
            final(self).indexes@ == old(self).indexes@ + offset_indexes(
                old(other).indexes@,
                old(self).vertexes@.len() as int,
            ),
            final(other).vertexes@ == Seq::<V>::empty(),
            final(other).indexes@ == Seq::<u32>::empty(),
    {
        let offset = self.vertexes.len() as u32;
        let ghost orig = other.indexes@;
        let n = other.indexes.len();
        let mut k: usize = 0;
        while k < n
            invariant
                n == orig.len(),
                other.indexes@.len() == n,
                offset == old(self).vertexes@.len(),
                self.vertexes@ == old(self).vertexes@,
                self.indexes@ == old(self).indexes@,
                other.vertexes@ == old(other).vertexes@,
                k <= n,
                forall|j: int| 0 <= j < n ==> #[trigger] orig[j] + offset <= u32::MAX,
                forall|j: int| 0 <= j < k ==> #[trigger] other.indexes@[j] == orig[j] + offset,
                forall|j: int| k <= j < n ==> #[trigger] other.indexes@[j] == orig[j],
            decreases n - k,
        {
            let shifted = other.indexes[k] + offset;
            other.indexes.set(k, shifted);
            k = k + 1;
        }
        assert(other.indexes@ =~= offset_indexes(orig, offset as int));
        self.vertexes.append(&mut other.vertexes);
        self.indexes.append(&mut other.indexes);
    }
}

impl<D> Mesh<Vertex<D>> {
    /// A mesh with the same geometry and indexes whose vertex data is `f` applied
    /// to each vertex's data, in order.
    pub fn map_data<D2, F>(self, mut f: F) -> (r: Mesh<Vertex<D2>>)
        where
            F: FnMut(D) -> D2,
        requires
            forall|i: int|
                0 <= i < self.vertexes@.len() ==> call_requires(f, (#[trigger] self.vertexes@[i].data,)),
        ensures
            r.vertexes@.len() == self.vertexes@.len(),
            forall|i: int|
                #![trigger r.vertexes@[i]]
                0 <= i < self.vertexes@.len() ==> {
                    &&& r.vertexes@[i].position == self.vertexes@[i].position
                    &&& r.vertexes@[i].normal == self.vertexes@[i].normal
                    &&& call_ensures(f, (self.vertexes@[i].data,), r.vertexes@[i].data)
                },
            r.indexes@ == self.indexes@,
    {
        broadcast use {vstd::std_specs::vec::axiom_spec_into_iter, vstd::function::group_function_axioms};
        let ghost f0 = f;
        let ghost src = self.vertexes@;
        let mut out: Vec<Vertex<D2>> = Vec::new();
        for v in it: self.vertexes.into_iter()
            invariant
                f == f0,
                it.seq() == src,
                out@.len() == it.index(),
                forall|i: int| 0 <= i < src.len() ==> call_requires(f, (#[trigger] src[i].data,)),
                forall|i: int|
                    #![trigger out@[i]]
                    0 <= i < it.index() ==> {
                        &&& out@[i].position == src[i].position
                        &&& out@[i].normal == src[i].normal
                        &&& call_ensures(f, (src[i].data,), out@[i].data)
                    },
        {
            out.push(Vertex { position: v.position, normal: v.normal, data: f(v.data) });
        }
        Mesh { vertexes: out, indexes: self.indexes }
    }

    /// A mesh with the same normals, data and indexes whose vertex positions are
    /// `f` applied to each position, in order.
    pub fn map_positions<F>(self, mut f: F) -> (r: Mesh<Vertex<D>>)
        where
            F: FnMut(IVec3) -> IVec3,
        requires
            forall|i: int|
                0 <= i < self.vertexes@.len() ==> call_requires(
                    f,
                    (#[trigger] self.vertexes@[i].position,),
                ),
        ensures
            r.vertexes@.len() == self.vertexes@.len(),
            forall|i: int|
                #![trigger r.vertexes@[i]]
                0 <= i < self.vertexes@.len() ==> {
                    &&& call_ensures(f, (self.vertexes@[i].position,), r.vertexes@[i].position)
                    &&& r.vertexes@[i].normal == self.vertexes@[i].normal
                    &&& r.vertexes@[i].data == self.vertexes@[i].data
                },
            r.indexes@ == self.indexes@,
    {
        broadcast use {vstd::std_specs::vec::axiom_spec_into_iter, vstd::function::group_function_axioms};
        let ghost f0 = f;
        let ghost src = self.vertexes@;
        let mut out: Vec<Vertex<D>> = Vec::new();
        for v in it: self.vertexes.into_iter()
            invariant
                f == f0,
                it.seq() == src,
                out@.len() == it.index(),
                forall|i: int| 0 <= i < src.len() ==> call_requires(f, (#[trigger] src[i].position,)),
                forall|i: int|
                    #![trigger out@[i]]
                    0 <= i < it.index() ==> {
                        &&& call_ensures(f, (src[i].position,), out@[i].position)
                        &&& out@[i].normal == src[i].normal
                        &&& out@[i].data == src[i].data
                    },
        {
            out.push(Vertex { position: f(v.position), normal: v.normal, data: v.data });
        }
        Mesh { vertexes: out, indexes: self.indexes }
    }
}

/// Appending meshes keeps every triangle: when both meshes are well formed, the
/// result is well formed and its corners are those of `a` followed by those of `b`.
pub proof fn lemma_append_keeps_triangles<V>(a: Mesh<V>, b: Mesh<V>, r: Mesh<V>)
    requires
        a.wf(),
        b.wf(),
        forall|j: int|
            0 <= j < b.indexes@.len() ==> #[trigger] b.indexes@[j] + a.vertexes@.len() <= u32::MAX,
        r.vertexes@ == a.vertexes@ + b.vertexes@,
        r.indexes@ == a.indexes@ + offset_indexes(b.indexes@, a.vertexes@.len() as int),
    ensures
        r.wf(),
        r.corners() == a.corners() + b.corners(),
{
    let na = a.indexes@.len() as int;
    assert forall|j: int| 0 <= j < r.indexes@.len() implies #[trigger] r.indexes@[j] < r.vertexes@.len() by {
        if j >= na {
            assert(b.indexes@[j - na] < b.vertexes@.len());
        }
    }
    let nv = a.vertexes@.len() as int;
    assert forall|j: int| 0 <= j < r.indexes@.len() implies #[trigger] r.corners()[j] == (a.corners() + b.corners())[j] by {
        if j >= na {
            let bi = b.indexes@[j - na];
            assert(bi < b.vertexes@.len());
            assert(bi + nv <= u32::MAX);
            assert(r.indexes@[j] == offset_indexes(b.indexes@, nv)[j - na]);
            assert(r.indexes@[j] == bi + nv);
            assert(r.vertexes@[bi + nv] == b.vertexes@[bi as int]);
            assert(b.corners()[j - na] == b.vertexes@[bi as int]);
        } else {
            let ai = a.indexes@[j];
            assert(ai < a.vertexes@.len());
            assert(r.vertexes@[ai as int] == a.vertexes@[ai as int]);
            assert(a.corners()[j] == a.vertexes@[ai as int]);
        }
    }
    assert(r.corners() =~= a.corners() + b.corners());
}

} // verus!

verus! {

/// Whether `n` is a unit vector along one of the three axes.
pub open spec fn is_unit_axis(n: IVec3) -> bool {
    ||| (n.x == 1 || n.x == -1) && n.y == 0 && n.z == 0
    ||| n.x == 0 && (n.y == 1 || n.y == -1) && n.z == 0
    ||| n.x == 0 && n.y == 0 && (n.z == 1 || n.z == -1)
}

/// Whether the point `(ox, oy, oz)` is a corner of the unit cell `0..1` per axis
/// lying on the side of the cell that the unit normal `n` points to: its
/// coordinate along `n`'s axis is 1 for a positive normal and 0 for a negative
/// one.
pub open spec fn on_cell_side(ox: int, oy: int, oz: int, n: IVec3) -> bool {
    &&& 0 <= ox <= 1
    &&& 0 <= oy <= 1
    &&& 0 <= oz <= 1
    &&& n.x == 1 ==> ox == 1
    &&& n.x == -1 ==> ox == 0
    &&& n.y == 1 ==> oy == 1
    &&& n.y == -1 ==> oy == 0
    &&& n.z == 1 ==> oz == 1
    &&& n.z == -1 ==> oz == 0
}

/// Position of corner `k` (`0..4`) of the unit square: `(k % 2, k / 2, 0)`.
pub open spec fn square_corner(k: int) -> IVec3 {
    IVec3 { x: (k % 2) as i32, y: (k / 2) as i32, z: 0 }
}

/// The unit normal pointing up (+z).
pub open spec fn up() -> IVec3 {
    IVec3 { x: 0, y: 0, z: 1 }
}

/// Entry `t` (`0..6`) of the two-triangle pattern `0, 1, 3, 3, 2, 0` that covers a
/// quad whose corners are numbered as in [`square_corner`].
pub open spec fn quad_pattern(t: int) -> int {
    if t == 0 || t == 5 {
        0
    } else if t == 1 {
        1
    } else if t == 4 {
        2
    } else {
        3
    }
}

/// The cross product `(b - a) x (c - a)`: perpendicular to triangle `a, b, c`,
/// pointing to the side from which its corners run counter-clockwise.
pub open spec fn triangle_normal(a: IVec3, b: IVec3, c: IVec3) -> (int, int, int) {
    let (ux, uy, uz) = (b.x - a.x, b.y - a.y, b.z - a.z);
    let (vx, vy, vz) = (c.x - a.x, c.y - a.y, c.z - a.z);
    (uy * vz - uz * vy, uz * vx - ux * vz, ux * vy - uy * vx)
}

/// Whether triangle `t` of a mesh (indexes `3t`, `3t + 1`, `3t + 2`) has one
/// normal at all three corners and runs counter-clockwise seen from the side
/// that normal points to, its cross product being exactly that normal.
pub open spec fn triangle_faces_out<D>(vertexes: Seq<Vertex<D>>, indexes: Seq<u32>, t: int) -> bool {
    let a = vertexes[indexes[3 * t] as int];
    let b = vertexes[indexes[3 * t + 1] as int];
    let c = vertexes[indexes[3 * t + 2] as int];
    &&& a.normal == b.normal
    &&& b.normal == c.normal
    &&& triangle_normal(a.position, b.position, c.position) == (
        a.normal.x as int,
        a.normal.y as int,
        a.normal.z as int,
    )
}

/// Moving a triangle does not change its cross product.
pub proof fn lemma_triangle_normal_translate(a: IVec3, b: IVec3, c: IVec3, a2: IVec3, b2: IVec3, c2: IVec3)
    requires
        b2.x - a2.x == b.x - a.x,
        b2.y - a2.y == b.y - a.y,
        b2.z - a2.z == b.z - a.z,
        c2.x - a2.x == c.x - a.x,
        c2.y - a2.y == c.y - a.y,
        c2.z - a2.z == c.z - a.z,
    ensures
        triangle_normal(a2, b2, c2) == triangle_normal(a, b, c),
{
}

/// The unit square faces up: both of its triangles (corners `0, 1, 3` and
/// `3, 2, 0`) run counter-clockwise seen from +z.
pub proof fn lemma_unit_square_faces_up() by (nonlinear_arith)
    ensures
        triangle_normal(square_corner(0), square_corner(1), square_corner(3)) == (0int, 0int, 1int),
        triangle_normal(square_corner(3), square_corner(2), square_corner(0)) == (0int, 0int, 1int),
{
}

/// The indexes of one quad whose four vertexes start at `base`.
pub open spec fn quad_indexes(base: int) -> Seq<u32> {
    Seq::new(6, |t: int| (base + quad_pattern(t)) as u32)
}

/// The unit square occupying x = 0..1, y = 0..1, z = 0, facing up (+z), as two
/// counter-clockwise triangles.
pub fn unit_square() -> (m: Mesh<Vertex<()>>)
    ensures
        m.vertexes@.len() == 4,
        forall|k: int|
            0 <= k < 4 ==> #[trigger] m.vertexes@[k] == (Vertex {
                position: square_corner(k),
                normal: up(),
                data: (),
            }),
        m.indexes@ == quad_indexes(0),
        m.wf(),
        forall|t: int| 0 <= t < 2 ==> #[trigger] triangle_faces_out(m.vertexes@, m.indexes@, t),
{
    let mut vertexes: Vec<Vertex<()>> = Vec::new();
    vertexes.push(Vertex { position: IVec3 { x: 0, y: 0, z: 0 }, normal: IVec3 { x: 0, y: 0, z: 1 }, data: () });
    vertexes.push(Vertex { position: IVec3 { x: 1, y: 0, z: 0 }, normal: IVec3 { x: 0, y: 0, z: 1 }, data: () });
    vertexes.push(Vertex { position: IVec3 { x: 0, y: 1, z: 0 }, normal: IVec3 { x: 0, y: 0, z: 1 }, data: () });
    vertexes.push(Vertex { position: IVec3 { x: 1, y: 1, z: 0 }, normal: IVec3 { x: 0, y: 0, z: 1 }, data: () });
    let indexes: Vec<u32> = vec![0, 1, 3, 3, 2, 0];
    let m = Mesh { vertexes, indexes };
    assert(m.indexes@ =~= quad_indexes(0));
    proof {
        lemma_unit_square_faces_up();
        assert(triangle_faces_out(m.vertexes@, m.indexes@, 0));
        assert(triangle_faces_out(m.vertexes@, m.indexes@, 1));
    }
    m
}

/// Colour of the floor tile at `(i, j)`: light where `i + j` is even, dark
/// where it is odd.
pub open spec fn floor_color(i: int, j: int) -> Rgba8 {
    if (i + j) % 2 == 0 {
        Rgba8 { r: 180, g: 175, b: 165, a: 255 }
    } else {
        Rgba8 { r: 145, g: 140, b: 125, a: 255 }
    }
}

/// Vertex `n` of the floor: corner `n % 4` of tile number `n / 4`, where tile
/// number `q` is the unit square at `(q / 20 - 10, q % 20 - 10)`.
pub open spec fn floor_vertex(n: int) -> Vertex<Rgba8> {
    let q = n / 4;
    let k = n % 4;
    let i = q / 20 - 10;
    let j = q % 20 - 10;
    Vertex {
        position: IVec3 { x: (i + k % 2) as i32, y: (j + k / 2) as i32, z: 0 },
        normal: up(),
        data: floor_color(i, j),
    }
}

/// Index `n` of the floor: entry `n % 6` of the quad pattern of tile `n / 6`.
pub open spec fn floor_index(n: int) -> u32 {
    (4 * (n / 6) + quad_pattern(n % 6)) as u32
}

/// Colour of the floor tile whose lowest corner is `(x, y)`, judged by the
/// parity of `x + y`: light when even, dark when odd.
pub open spec fn checker_color(x: int, y: int) -> Rgba8 {
    if (x + y) % 2 == 0 {
        Rgba8 { r: 180, g: 175, b: 165, a: 255 }
    } else {
        Rgba8 { r: 145, g: 140, b: 125, a: 255 }
    }
}

/// The floor is a checkerboard of unit tiles: each tile's four vertexes are
/// the corners of the unit square at its lowest corner `o` (with `z = 0`,
/// `-10 <= o.x, o.y < 10`), share one colour, light when `o.x + o.y` is even
/// and dark when odd; so two tiles sharing an edge never share a colour.
pub proof fn lemma_floor_checkerboard()
    ensures
        forall|q: int, k: int|
            0 <= q < 400 && 0 <= k < 4 ==> {
                let o = floor_vertex(4 * q).position;
                let v = #[trigger] floor_vertex(4 * q + k);
                &&& o.z == 0 && -10 <= o.x < 10 && -10 <= o.y < 10
                &&& v.position == (IVec3 { x: (o.x + k % 2) as i32, y: (o.y + k / 2) as i32, z: 0 })
                &&& v.data == checker_color(o.x as int, o.y as int)
            },
        forall|q1: int, q2: int|
            0 <= q1 < 400 && 0 <= q2 < 400 && {
                let o1 = floor_vertex(4 * q1).position;
                let o2 = floor_vertex(4 * q2).position;
                ||| o1.x == o2.x && (o1.y - o2.y == 1 || o2.y - o1.y == 1)
                ||| o1.y == o2.y && (o1.x - o2.x == 1 || o2.x - o1.x == 1)
            } ==> #[trigger] floor_vertex(4 * q1).data != #[trigger] floor_vertex(4 * q2).data,
{
    assert forall|q: int, k: int| 0 <= q < 400 && 0 <= k < 4 implies {
        let o = floor_vertex(4 * q).position;
        let v = #[trigger] floor_vertex(4 * q + k);
        &&& o.z == 0 && -10 <= o.x < 10 && -10 <= o.y < 10
        &&& v.position == (IVec3 { x: (o.x + k % 2) as i32, y: (o.y + k / 2) as i32, z: 0 })
        &&& v.data == checker_color(o.x as int, o.y as int)
    } by {
        assert((4 * q + k) / 4 == q && (4 * q + k) % 4 == k);
        assert((4 * q) / 4 == q && (4 * q) % 4 == 0);
        assert(0 <= q / 20 < 20 && 0 <= q % 20 < 20);
    }
    assert forall|q1: int, q2: int|
        0 <= q1 < 400 && 0 <= q2 < 400 && {
            let o1 = floor_vertex(4 * q1).position;
            let o2 = floor_vertex(4 * q2).position;
            ||| o1.x == o2.x && (o1.y - o2.y == 1 || o2.y - o1.y == 1)
            ||| o1.y == o2.y && (o1.x - o2.x == 1 || o2.x - o1.x == 1)
        } implies #[trigger] floor_vertex(4 * q1).data != #[trigger] floor_vertex(4 * q2).data by {
        assert((4 * q1) / 4 == q1 && (4 * q1) % 4 == 0);
        assert((4 * q2) / 4 == q2 && (4 * q2) % 4 == 0);
        assert(0 <= q1 / 20 < 20 && 0 <= q1 % 20 < 20);
        assert(0 <= q2 / 20 < 20 && 0 <= q2 % 20 < 20);
    }
}

/// Every triangle of the floor faces up: its corners share the normal +z,
/// which is its cross product.
pub proof fn lemma_floor_triangles_face_out(vs: Seq<Vertex<Rgba8>>, is: Seq<u32>)
    requires
        vs == Seq::new(1600, |n: int| floor_vertex(n)),
        is == Seq::new(2400, |n: int| floor_index(n)),
    ensures
        forall|t: int| 0 <= t < 800 ==> #[trigger] triangle_faces_out(vs, is, t),
{
    lemma_unit_square_faces_up();
    assert forall|t: int| 0 <= t < 800 implies #[trigger] triangle_faces_out(vs, is, t) by {
        let q = t / 2;
        assert(0 <= q < 400);
        let (k0, k1, k2) = if t % 2 == 0 {
            (0int, 1int, 3int)
        } else {
            (3int, 2int, 0int)
        };
        if t % 2 == 0 {
            assert((3 * t) / 6 == q && (3 * t) % 6 == 0);
            assert((3 * t + 1) / 6 == q && (3 * t + 1) % 6 == 1);
            assert((3 * t + 2) / 6 == q && (3 * t + 2) % 6 == 2);
        } else {
            assert((3 * t) / 6 == q && (3 * t) % 6 == 3);
            assert((3 * t + 1) / 6 == q && (3 * t + 1) % 6 == 4);
            assert((3 * t + 2) / 6 == q && (3 * t + 2) % 6 == 5);
        }
        assert(is[3 * t] == 4 * q + k0 && is[3 * t + 1] == 4 * q + k1 && is[3 * t + 2] == 4 * q + k2);
        assert(0 <= q / 20 < 20 && 0 <= q % 20 < 20);
        assert((4 * q + k0) / 4 == q && (4 * q + k0) % 4 == k0);
        assert((4 * q + k1) / 4 == q && (4 * q + k1) % 4 == k1);
        assert((4 * q + k2) / 4 == q && (4 * q + k2) % 4 == k2);
        lemma_triangle_normal_translate(
            square_corner(k0),
            square_corner(k1),
            square_corner(k2),
            vs[4 * q + k0].position,
            vs[4 * q + k1].position,
            vs[4 * q + k2].position,
        );
    }
}

/// A checkerboard floor of 20 x 20 unit tiles covering x, y = -10..10 at z = 0,
/// one tile after another with x outermost.
pub fn floor() -> (m: Mesh<Vertex<Rgba8>>)
    ensures
        m.vertexes@ == Seq::new(1600, |n: int| floor_vertex(n)),
        m.indexes@ == Seq::new(2400, |n: int| floor_index(n)),
        m.wf(),
        forall|n: int|
            0 <= n < 1600 ==> {
                let v = #[trigger] m.vertexes@[n];
                let k = n % 4;
                v.data == checker_color(v.position.x - k % 2, v.position.y - k / 2)
            },
        forall|t: int| 0 <= t < 800 ==> #[trigger] triangle_faces_out(m.vertexes@, m.indexes@, t),
{
    proof {
        lemma_floor_checkerboard();
    }
    let mut mesh: Mesh<Vertex<Rgba8>> = Mesh::new_empty();
    let mut i: i32 = -10;
    while i < 10
        invariant
            -10 <= i <= 10,
            mesh.vertexes@ == Seq::new((4 * (20 * (i + 10))) as nat, |n: int| floor_vertex(n)),
            mesh.indexes@ == Seq::new((6 * (20 * (i + 10))) as nat, |n: int| floor_index(n)),
        decreases 10 - i,
    {
        let mut j: i32 = -10;
        assert(mesh.vertexes@ =~= Seq::new((4 * (20 * (i + 10) + (j + 10))) as nat, |n: int| floor_vertex(n)));
        assert(mesh.indexes@ =~= Seq::new((6 * (20 * (i + 10) + (j + 10))) as nat, |n: int| floor_index(n)));
        while j < 10
            invariant
                -10 <= i < 10,
                -10 <= j <= 10,
                mesh.vertexes@ == Seq::new(
                    (4 * (20 * (i + 10) + (j + 10))) as nat,
                    |n: int| floor_vertex(n),
                ),
                mesh.indexes@ == Seq::new(
                    (6 * (20 * (i + 10) + (j + 10))) as nat,
                    |n: int| floor_index(n),
                ),
            decreases 10 - j,
        {
            let colour = if (i + 10 + j + 10) % 2 == 0 {
                rgba8(180, 175, 165, 255)
            } else {
                rgba8(145, 140, 125, 255)
            };
            assert(colour == floor_color(i as int, j as int));
            let paint = move |d: ()| -> (c: Rgba8)
                ensures
                    c == colour,
                { colour };
            let coloured = unit_square().map_data(paint);
            let shift = move |p: IVec3| -> (r: IVec3)
                requires
                    0 <= p.x <= 1,
                    0 <= p.y <= 1,
                ensures
                    r.x == p.x + i,
                    r.y == p.y + j,
                    r.z == p.z,
                { IVec3 { x: p.x + i, y: p.y + j, z: p.z } };
            let mut square = coloured.map_positions(shift);
            let ghost q = 20 * (i + 10) + (j + 10);
            let ghost before_v = mesh.vertexes@;
            let ghost before_i = mesh.indexes@;
            let ghost sq_v = square.vertexes@;
            let ghost sq_i = square.indexes@;
            mesh.append(&mut square);
            proof {
                assert(sq_i == quad_indexes(0));
                assert forall|k: int| 0 <= k < 4 implies #[trigger] sq_v[k] == floor_vertex(4 * q + k) by {
                    let qq = 4 * q + k;
                    assert(qq / 4 == q && qq % 4 == k);
                    assert(q / 20 == i + 10 && q % 20 == j + 10);
                }
                assert(mesh.vertexes@ =~= Seq::new((4 * (q + 1)) as nat, |n: int| floor_vertex(n)));
                assert forall|t: int| 0 <= t < 6 implies #[trigger] offset_indexes(sq_i, 4 * q)[t] == floor_index(6 * q + t) by {
                    let nn = 6 * q + t;
                    assert(nn / 6 == q && nn % 6 == t);
                }
                assert(mesh.indexes@ =~= Seq::new((6 * (q + 1)) as nat, |n: int| floor_index(n)));
            }
            j = j + 1;
        }
        assert(mesh.vertexes@ =~= Seq::new((4 * (20 * (i + 1 + 10))) as nat, |n: int| floor_vertex(n)));
        assert(mesh.indexes@ =~= Seq::new((6 * (20 * (i + 1 + 10))) as nat, |n: int| floor_index(n)));
        i = i + 1;
    }
    proof {
        assert forall|n: int| 0 <= n < mesh.indexes@.len() implies #[trigger] mesh.indexes@[n] < mesh.vertexes@.len() by {
            assert(0 <= n / 6 < 400) by (nonlinear_arith)
                requires
                    0 <= n < 2400,
            ;
            assert(mesh.indexes@[n] == floor_index(n));
        }
        lemma_floor_triangles_face_out(mesh.vertexes@, mesh.indexes@);
    }
    mesh
}

} // verus!

verus! {

/// Outward normal of face `c` of the unit cube; the faces come in the order
/// +Z, -Z, +X, -X, -Y, +Y.
pub open spec fn cube_normal(c: int) -> IVec3 {
    if c == 0 {
        IVec3 { x: 0, y: 0, z: 1 }
    } else if c == 1 {
        IVec3 { x: 0, y: 0, z: -1i32 }
    } else if c == 2 {
        IVec3 { x: 1, y: 0, z: 0 }
    } else if c == 3 {
        IVec3 { x: -1i32, y: 0, z: 0 }
    } else if c == 4 {
        IVec3 { x: 0, y: -1i32, z: 0 }
    } else {
        IVec3 { x: 0, y: 1, z: 0 }
    }
}

/// Corner of the unit cube `0..1` per axis where corner `(u, v)` of the +Z face
/// lands when that face is turned onto face `c`: by a half turn about y for -Z,
/// quarter turns about y for +X and -X, and quarter turns about x for -Y and +Y.
pub open spec fn cube_corner(c: int, u: int, v: int) -> IVec3 {
    if c == 0 {
        IVec3 { x: u as i32, y: v as i32, z: 1 }
    } else if c == 1 {
        IVec3 { x: (1 - u) as i32, y: v as i32, z: 0 }
    } else if c == 2 {
        IVec3 { x: 1, y: v as i32, z: (1 - u) as i32 }
    } else if c == 3 {
        IVec3 { x: 0, y: v as i32, z: u as i32 }
    } else if c == 4 {
        IVec3 { x: u as i32, y: 0, z: v as i32 }
    } else {
        IVec3 { x: u as i32, y: 1, z: (1 - v) as i32 }
    }
}

/// Vertex `n` of the cube: corner `n % 4` of face `n / 4`, carrying its corner
/// number as data.
pub open spec fn cube_vertex(n: int) -> Vertex<u8> {
    let c = n / 4;
    let k = n % 4;
    Vertex { position: cube_corner(c, k % 2, k / 2), normal: cube_normal(c), data: k as u8 }
}

/// Every face of the cube is wound outward: both triangles of face `c` run
/// counter-clockwise seen from outside, their cross products being the face's
/// outward normal.
pub proof fn lemma_cube_faces_wind_outward(c: int) by (nonlinear_arith)
    requires
        0 <= c < 6,
    ensures
        ({
            let n = cube_normal(c);
            let c0 = cube_corner(c, 0, 0);
            let c1 = cube_corner(c, 1, 0);
            let c2 = cube_corner(c, 0, 1);
            let c3 = cube_corner(c, 1, 1);
            &&& triangle_normal(c0, c1, c3) == (n.x as int, n.y as int, n.z as int)
            &&& triangle_normal(c3, c2, c0) == (n.x as int, n.y as int, n.z as int)
        }),
{
}

/// The cube's faces cover its six sides: every vertex has a unit normal and
/// lies on the side of the unit cell that its normal points to; the four
/// vertexes of a face share one normal and are four different points; and no
/// two faces share a normal.
pub proof fn lemma_cube_faces_cover_sides()
    ensures
        forall|n: int|
            0 <= n < 24 ==> {
                let v = #[trigger] cube_vertex(n);
                &&& is_unit_axis(v.normal)
                &&& on_cell_side(v.position.x as int, v.position.y as int, v.position.z as int, v.normal)
                &&& v.normal == cube_vertex(4 * (n / 4)).normal
            },
        forall|a: int, b: int|
            0 <= a < 6 && 0 <= b < 6 && a != b ==> #[trigger] cube_vertex(4 * a).normal
                != #[trigger] cube_vertex(4 * b).normal,
        forall|a: int, k1: int, k2: int|
            0 <= a < 6 && 0 <= k1 < 4 && 0 <= k2 < 4 && k1 != k2 ==> #[trigger] cube_vertex(
                4 * a + k1,
            ).position != #[trigger] cube_vertex(4 * a + k2).position,
{
    assert forall|n: int| 0 <= n < 24 implies {
        let v = #[trigger] cube_vertex(n);
        &&& is_unit_axis(v.normal)
        &&& on_cell_side(v.position.x as int, v.position.y as int, v.position.z as int, v.normal)
        &&& v.normal == cube_vertex(4 * (n / 4)).normal
    } by {
        assert(0 <= n / 4 < 6 && 0 <= n % 4 < 4 && (4 * (n / 4)) / 4 == n / 4 && (4 * (n / 4)) % 4 == 0);
    }
    assert forall|a: int, b: int|
        0 <= a < 6 && 0 <= b < 6 && a != b implies #[trigger] cube_vertex(4 * a).normal
        != #[trigger] cube_vertex(4 * b).normal by {
        assert((4 * a) / 4 == a && (4 * b) / 4 == b);
    }
    assert forall|a: int, k1: int, k2: int|
        0 <= a < 6 && 0 <= k1 < 4 && 0 <= k2 < 4 && k1 != k2 implies #[trigger] cube_vertex(
        4 * a + k1,
    ).position != #[trigger] cube_vertex(4 * a + k2).position by {
        assert((4 * a + k1) / 4 == a && (4 * a + k1) % 4 == k1);
        assert((4 * a + k2) / 4 == a && (4 * a + k2) % 4 == k2);
    }
}

/// Every triangle of the cube runs counter-clockwise seen from outside: its
/// three corners share the face normal, which is its cross product.
pub proof fn lemma_cube_triangles_face_out(vs: Seq<Vertex<u8>>, is: Seq<u32>)
    requires
        vs == Seq::new(24, |n: int| cube_vertex(n)),
        is == Seq::new(36, |n: int| (4 * (n / 6) + quad_pattern(n % 6)) as u32),
    ensures
        forall|t: int| 0 <= t < 12 ==> #[trigger] triangle_faces_out(vs, is, t),
{
    assert forall|t: int| 0 <= t < 12 implies #[trigger] triangle_faces_out(vs, is, t) by {
        let c = t / 2;
        lemma_cube_faces_wind_outward(c);
        assert(0 <= c < 6);
        if t % 2 == 0 {
            assert(3 * t == 6 * c && (3 * t) / 6 == c && (3 * t) % 6 == 0);
            assert((3 * t + 1) / 6 == c && (3 * t + 1) % 6 == 1);
            assert((3 * t + 2) / 6 == c && (3 * t + 2) % 6 == 2);
            assert(is[3 * t] == 4 * c && is[3 * t + 1] == 4 * c + 1 && is[3 * t + 2] == 4 * c + 3);
        } else {
            assert((3 * t) / 6 == c && (3 * t) % 6 == 3);
            assert((3 * t + 1) / 6 == c && (3 * t + 1) % 6 == 4);
            assert((3 * t + 2) / 6 == c && (3 * t + 2) % 6 == 5);
            assert(is[3 * t] == 4 * c + 3 && is[3 * t + 1] == 4 * c + 2 && is[3 * t + 2] == 4 * c);
        }
        assert((4 * c) / 4 == c && (4 * c) % 4 == 0);
        assert((4 * c + 1) / 4 == c && (4 * c + 1) % 4 == 1);
        assert((4 * c + 2) / 4 == c && (4 * c + 2) % 4 == 2);
        assert((4 * c + 3) / 4 == c && (4 * c + 3) % 4 == 3);
    }
}

fn cube_normal_exec(c: usize) -> (n: IVec3)
    requires
        c < 6,
    ensures
        n == cube_normal(c as int),
{
    if c == 0 {
        IVec3 { x: 0, y: 0, z: 1 }
    } else if c == 1 {
        IVec3 { x: 0, y: 0, z: -1 }
    } else if c == 2 {
        IVec3 { x: 1, y: 0, z: 0 }
    } else if c == 3 {
        IVec3 { x: -1, y: 0, z: 0 }
    } else if c == 4 {
        IVec3 { x: 0, y: -1, z: 0 }
    } else {
        IVec3 { x: 0, y: 1, z: 0 }
    }
}

fn cube_corner_exec(c: usize, u: i32, v: i32) -> (p: IVec3)
    requires
        c < 6,
        0 <= u <= 1,
        0 <= v <= 1,
    ensures
        p == cube_corner(c as int, u as int, v as int),
{
    if c == 0 {
        IVec3 { x: u, y: v, z: 1 }
    } else if c == 1 {
        IVec3 { x: 1 - u, y: v, z: 0 }
    } else if c == 2 {
        IVec3 { x: 1, y: v, z: 1 - u }
    } else if c == 3 {
        IVec3 { x: 0, y: v, z: u }
    } else if c == 4 {
        IVec3 { x: u, y: 0, z: v }
    } else {
        IVec3 { x: u, y: 1, z: 1 - v }
    }
}

/// The six faces of the unit cube spanning `0..1` on each axis, each the unit
/// square turned onto that face, in the order +Z, -Z, +X, -X, -Y, +Y; each
/// vertex carries the number (`0..4`) of the square corner it came from.
pub fn cube_faces() -> (m: Mesh<Vertex<u8>>)
    ensures
        m.vertexes@ == Seq::new(24, |n: int| cube_vertex(n)),
        m.indexes@ == Seq::new(36, |n: int| (4 * (n / 6) + quad_pattern(n % 6)) as u32),
        m.wf(),
        forall|n: int|
            0 <= n < m.vertexes@.len() ==> {
                let v = #[trigger] m.vertexes@[n];
                &&& is_unit_axis(v.normal)
                &&& on_cell_side(v.position.x as int, v.position.y as int, v.position.z as int, v.normal)
            },
        forall|t: int| 0 <= t < 12 ==> #[trigger] triangle_faces_out(m.vertexes@, m.indexes@, t),
{
    proof {
        lemma_cube_faces_cover_sides();
    }
    let mut cube: Mesh<Vertex<u8>> = Mesh::new_empty();
    let mut c: usize = 0;
    while c < 6
        invariant
            c <= 6,
            cube.vertexes@ == Seq::new((4 * c) as nat, |n: int| cube_vertex(n)),
            cube.indexes@ == Seq::new(
                (6 * c) as nat,
                |n: int| (4 * (n / 6) + quad_pattern(n % 6)) as u32,
            ),
        decreases 6 - c,
    {
        let normal = cube_normal_exec(c);
        let place = |v: Vertex<()>| -> (w: Vertex<u8>)
            requires
                c < 6,
                normal == cube_normal(c as int),
                0 <= v.position.x <= 1,
                0 <= v.position.y <= 1,
            ensures
                w.position == cube_corner(c as int, v.position.x as int, v.position.y as int),
                w.normal == cube_normal(c as int),
                w.data == v.position.x + 2 * v.position.y,
            {
                let position = cube_corner_exec(c, v.position.x, v.position.y);
                let k = (v.position.x + 2 * v.position.y) as u8;
                Vertex { position, normal, data: k }
            };
        let square = unit_square();
        let mut face = square.map_vertexes(place);
        let ghost face_v = face.vertexes@;
        let ghost face_i = face.indexes@;
        let ghost before_len = cube.vertexes@.len();
        proof {
            assert forall|k: int| 0 <= k < 4 implies #[trigger] face_v[k] == cube_vertex(4 * c + k) by {
                assert(square.vertexes@[k].position == square_corner(k));
                let nn = 4 * c + k;
                assert(nn / 4 == c && nn % 4 == k);
            }
        }
        cube.append(&mut face);
        proof {
            assert(cube.vertexes@ =~= Seq::new((4 * (c + 1)) as nat, |n: int| cube_vertex(n)));
            assert forall|t: int| 0 <= t < 6 implies #[trigger] offset_indexes(face_i, before_len as int)[t]
                == (4 * ((6 * c + t) / 6) + quad_pattern((6 * c + t) % 6)) as u32 by {
                let nn = 6 * c + t;
                assert(nn / 6 == c && nn % 6 == t);
            }
            assert(cube.indexes@ =~= Seq::new(
                (6 * (c + 1)) as nat,
                |n: int| (4 * (n / 6) + quad_pattern(n % 6)) as u32,
            ));
        }
        c = c + 1;
    }
    proof {
        assert forall|n: int| 0 <= n < cube.indexes@.len() implies #[trigger] cube.indexes@[n] < cube.vertexes@.len() by {
            assert(0 <= n / 6 < 6) by (nonlinear_arith)
                requires
                    0 <= n < 36,
            ;
        }
        lemma_cube_triangles_face_out(cube.vertexes@, cube.indexes@);
    }
    cube
}

} // verus!
