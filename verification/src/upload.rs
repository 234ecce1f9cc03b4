//! Layout of many meshes in one shared GPU vertex buffer and index buffer.

use vstd::prelude::*;

use crate::mesh::Mesh;

verus! {

/// Where one mesh's indexes lie in the shared index buffer, and where its
/// vertexes start in the shared vertex buffer.
#[derive(Debug, Clone, Copy, PartialEq, Eq)]
pub struct MeshBufferEntry {
    pub first_index: u32,
    pub num_indices: u32,
    pub vertex_offset: i32,
}

/// Total number of indexes of the first `n` meshes.
pub open spec fn index_total<V>(meshes: Seq<Mesh<V>>, n: int) -> int
    decreases n,
{
    if n <= 0 {
        0
    } else {
        index_total(meshes, n - 1) + meshes[n - 1].indexes@.len()
    }
}

/// Total number of vertexes of the first `n` meshes.
pub open spec fn vertex_total<V>(meshes: Seq<Mesh<V>>, n: int) -> int
    decreases n,
{
    if n <= 0 {
        0
    } else {
        vertex_total(meshes, n - 1) + meshes[n - 1].vertexes@.len()
    }
}

/// The totals never decrease as more meshes are counted.
pub proof fn lemma_totals_monotonic<V>(meshes: Seq<Mesh<V>>, k: int, n: int)
    requires
        0 <= k <= n,
    ensures
        0 <= index_total(meshes, k) <= index_total(meshes, n),
        0 <= vertex_total(meshes, k) <= vertex_total(meshes, n),
    decreases n - k,
{
    if k < n {
        lemma_totals_monotonic(meshes, k, n - 1);
    } else {
        lemma_totals_nonnegative(meshes, n);
    }
}

proof fn lemma_totals_nonnegative<V>(meshes: Seq<Mesh<V>>, n: int)
    ensures
        0 <= index_total(meshes, n),
        0 <= vertex_total(meshes, n),
    decreases n,
{
    if n > 0 {
        lemma_totals_nonnegative(meshes, n - 1);
    }
}

/// Byte `j` (`0..4`, least significant first) of `w`.
pub open spec fn le_byte(w: u32, j: int) -> u8 {
    if j == 0 {
        (w % 256) as u8
    } else if j == 1 {
        ((w / 256) % 256) as u8
    } else if j == 2 {
        ((w / 65536) % 256) as u8
    } else {
        (w / 16777216) as u8
    }
}

/// `words` as bytes, four per word, least significant byte first.
pub open spec fn le_bytes(words: Seq<u32>) -> Seq<u8> {
    Seq::new(4 * words.len(), |b: int| le_byte(words[b / 4], b % 4))
}

/// `words` as bytes, four per word, most significant byte first.
pub open spec fn be_bytes(words: Seq<u32>) -> Seq<u8> {
    Seq::new(4 * words.len(), |b: int| le_byte(words[b / 4], 3 - b % 4))
}

/// Whether `bytes` is `words` in one of the two byte orders.
pub open spec fn words_as_bytes(words: Seq<u32>, bytes: Seq<u8>) -> bool {
    bytes == le_bytes(words) || bytes == be_bytes(words)
}

/// The bytes of `indexes` as they lie in memory, via `bytemuck::cast_slice`.
/// That function reinterprets the slice in place, so the bytes come in the
/// machine's byte order; which order that is, is not stated, only that it is
/// one of the two.
#[verifier::external_body]
fn index_bytes(indexes: &[u32]) -> (bytes: Vec<u8>)
    ensures
        words_as_bytes(indexes@, bytes@),
{
    bytemuck::cast_slice::<u32, u8>(indexes).to_vec()
}

/// The entry of mesh `k`: its indexes follow those of the meshes before it, and
/// its vertexes follow theirs.
pub open spec fn layout_entry<V>(meshes: Seq<Mesh<V>>, k: int) -> MeshBufferEntry {
    MeshBufferEntry {
        first_index: index_total(meshes, k) as u32,
        num_indices: meshes[k].indexes@.len() as u32,
        vertex_offset: vertex_total(meshes, k) as i32,
    }
}

/// The indexes of the first `n` meshes, one mesh after another.
pub open spec fn all_indexes<V>(meshes: Seq<Mesh<V>>, n: int) -> Seq<u32>
    decreases n,
{
    if n <= 0 {
        Seq::empty()
    } else {
        all_indexes(meshes, n - 1) + meshes[n - 1].indexes@
    }
}

/// The concatenated indexes hold each mesh's indexes at that mesh's place.
pub proof fn lemma_all_indexes_segments<V>(meshes: Seq<Mesh<V>>, n: int)
    requires
        0 <= n <= meshes.len(),
    ensures
        all_indexes(meshes, n).len() == index_total(meshes, n),
        forall|k: int|
            0 <= k < n ==> #[trigger] all_indexes(meshes, n).subrange(
                index_total(meshes, k),
                index_total(meshes, k + 1),
            ) == meshes[k].indexes@,
    decreases n,
{
    if n > 0 {
        lemma_all_indexes_segments(meshes, n - 1);
        let prev = all_indexes(meshes, n - 1);
        let all = all_indexes(meshes, n);
        assert forall|k: int|
            0 <= k < n implies #[trigger] all.subrange(index_total(meshes, k), index_total(meshes, k + 1))
            == meshes[k].indexes@ by {
            lemma_totals_monotonic(meshes, k, k + 1);
            if k < n - 1 {
                lemma_totals_monotonic(meshes, k + 1, n - 1);
                assert(all.subrange(index_total(meshes, k), index_total(meshes, k + 1))
                    =~= prev.subrange(index_total(meshes, k), index_total(meshes, k + 1)));
            } else {
                assert(all.subrange(index_total(meshes, k), index_total(meshes, k + 1))
                    =~= meshes[k].indexes@);
            }
        }
    }
}

/// A run of whole words of a byte image is the image of that run of words.
proof fn lemma_bytes_subrange(words: Seq<u32>, lo: int, hi: int)
    requires
        0 <= lo <= hi <= words.len(),
    ensures
        le_bytes(words).subrange(4 * lo, 4 * hi) == le_bytes(words.subrange(lo, hi)),
        be_bytes(words).subrange(4 * lo, 4 * hi) == be_bytes(words.subrange(lo, hi)),
{
    let sub = words.subrange(lo, hi);
    assert forall|j: int| 0 <= j < 4 * (hi - lo) implies
        #[trigger] le_bytes(words).subrange(4 * lo, 4 * hi)[j] == le_bytes(sub)[j]
        && be_bytes(words).subrange(4 * lo, 4 * hi)[j] == be_bytes(sub)[j] by {
        assert((4 * lo + j) / 4 == lo + j / 4 && (4 * lo + j) % 4 == j % 4) by (nonlinear_arith)
            requires
                0 <= j,
                0 <= lo,
        ;
        assert(0 <= j / 4 < hi - lo) by (nonlinear_arith)
            requires
                0 <= j < 4 * (hi - lo),
        ;
    }
    assert(le_bytes(words).subrange(4 * lo, 4 * hi) =~= le_bytes(words.subrange(lo, hi)));
    assert(be_bytes(words).subrange(4 * lo, 4 * hi) =~= be_bytes(words.subrange(lo, hi)));
}

/// Lays the meshes out one after another: one entry per mesh, and the index
/// buffer bytes, which are the bytes of all meshes' indexes, unchanged and one
/// mesh after another, all in one byte order (the entry's `vertex_offset`
/// rebases them when drawing).
pub fn plan_mesh_upload<V>(meshes: &[Mesh<V>]) -> (r: (Vec<MeshBufferEntry>, Vec<u8>))
    requires
        index_total(meshes@, meshes@.len() as int) <= u32::MAX,
        vertex_total(meshes@, meshes@.len() as int) <= i32::MAX,
    ensures
        r.0@.len() == meshes@.len(),
        forall|k: int| 0 <= k < meshes@.len() ==> #[trigger] r.0@[k] == layout_entry(meshes@, k),
        words_as_bytes(all_indexes(meshes@, meshes@.len() as int), r.1@),
        r.1@.len() == 4 * index_total(meshes@, meshes@.len() as int),
        forall|k: int|
            0 <= k < meshes@.len() ==> words_as_bytes(
                #[trigger] meshes@[k].indexes@,
                r.1@.subrange(4 * index_total(meshes@, k), 4 * index_total(meshes@, k + 1)),
            ),
{
    let mut all: Vec<u32> = Vec::new();
    let mut mesh_buf_entries: Vec<MeshBufferEntry> = Vec::new();
    let mut next_first_index: u32 = 0;
    let mut next_vertex_offset: i32 = 0;
    let mut mesh_id: usize = 0;
    while mesh_id < meshes.len()
        invariant
            mesh_id <= meshes@.len(),
            index_total(meshes@, meshes@.len() as int) <= u32::MAX,
            vertex_total(meshes@, meshes@.len() as int) <= i32::MAX,
            next_first_index == index_total(meshes@, mesh_id as int),
            next_vertex_offset == vertex_total(meshes@, mesh_id as int),
            mesh_buf_entries@.len() == mesh_id,
            forall|k: int| 0 <= k < mesh_id ==> #[trigger] mesh_buf_entries@[k] == layout_entry(meshes@, k),
            all@ == all_indexes(meshes@, mesh_id as int),
        decreases meshes@.len() - mesh_id,
    {
        proof {
            lemma_totals_monotonic(meshes@, mesh_id as int + 1, meshes@.len() as int);
            lemma_totals_monotonic(meshes@, mesh_id as int, mesh_id as int + 1);
        }
        let mesh = &meshes[mesh_id];
        let ghost before = all@;
        let mut j: usize = 0;
        while j < mesh.indexes.len()
            invariant
                mesh == &meshes@[mesh_id as int],
                j <= mesh.indexes@.len(),
                all@ == before + mesh.indexes@.subrange(0, j as int),
            decreases mesh.indexes@.len() - j,
        {
            all.push(mesh.indexes[j]);
            j = j + 1;
            assert(all@ =~= before + mesh.indexes@.subrange(0, j as int));
        }
        assert(all@ =~= all_indexes(meshes@, mesh_id as int + 1));

        let mesh_index_count = mesh.indexes.len() as u32;
        let mesh_vertex_count = mesh.vertexes.len() as i32;
        let entry = MeshBufferEntry {
            first_index: next_first_index,
            num_indices: mesh_index_count,
            vertex_offset: next_vertex_offset,
        };
        mesh_buf_entries.push(entry);
        next_first_index = next_first_index + mesh_index_count;
        next_vertex_offset = next_vertex_offset + mesh_vertex_count;
        mesh_id = mesh_id + 1;
    }
    let ibuf_data = index_bytes(all.as_slice());
    proof {
        let n = meshes@.len() as int;
        lemma_all_indexes_segments(meshes@, n);
        assert forall|k: int|
            0 <= k < n implies words_as_bytes(
            #[trigger] meshes@[k].indexes@,
            ibuf_data@.subrange(4 * index_total(meshes@, k), 4 * index_total(meshes@, k + 1)),
        ) by {
            lemma_totals_monotonic(meshes@, k + 1, n);
            lemma_totals_monotonic(meshes@, k, k + 1);
            lemma_bytes_subrange(all@, index_total(meshes@, k), index_total(meshes@, k + 1));
            assert(all@.subrange(index_total(meshes@, k), index_total(meshes@, k + 1))
                == meshes@[k].indexes@);
        }
    }
    (mesh_buf_entries, ibuf_data)
}

/// The entries tile both buffers: the first starts at zero, each next one
/// starts where the one before ends, and the last ends at the totals.
pub proof fn lemma_entries_tile<V>(meshes: Seq<Mesh<V>>)
    requires
        index_total(meshes, meshes.len() as int) <= u32::MAX,
        vertex_total(meshes, meshes.len() as int) <= i32::MAX,
    ensures
        meshes.len() > 0 ==> layout_entry(meshes, 0).first_index == 0 && layout_entry(meshes, 0).vertex_offset == 0,
        forall|k: int|
            0 <= k < meshes.len() - 1 ==> {
                &&& (#[trigger] layout_entry(meshes, k + 1)).first_index == layout_entry(meshes, k).first_index
                    + layout_entry(meshes, k).num_indices
                &&& layout_entry(meshes, k + 1).vertex_offset == layout_entry(meshes, k).vertex_offset
                    + meshes[k].vertexes@.len()
            },
        meshes.len() > 0 ==> layout_entry(meshes, meshes.len() - 1).first_index
            + layout_entry(meshes, meshes.len() - 1).num_indices == index_total(meshes, meshes.len() as int),
{
    assert forall|k: int| 0 <= k < meshes.len() - 1 implies {
        &&& (#[trigger] layout_entry(meshes, k + 1)).first_index == layout_entry(meshes, k).first_index
            + layout_entry(meshes, k).num_indices
        &&& layout_entry(meshes, k + 1).vertex_offset == layout_entry(meshes, k).vertex_offset
            + meshes[k].vertexes@.len()
    } by {
        lemma_totals_monotonic(meshes, k + 1, meshes.len() as int);
        lemma_totals_monotonic(meshes, k, k + 1);
    }
    if meshes.len() > 0 {
        lemma_totals_monotonic(meshes, meshes.len() - 1, meshes.len() as int);
        lemma_totals_monotonic(meshes, 0, meshes.len() - 1);
    }
}

} // verus!
