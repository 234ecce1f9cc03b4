use lithia_powder::color::rgba8;
use lithia_powder::lattice::{ivec3, IVec3};
use lithia_powder::world::{sand_pyramid, Block, Chunk, ChunkVertexData, CornerState};

fn chunk_with(cells: &[IVec3]) -> Chunk {
    let cells: Vec<IVec3> = cells.to_vec();
    Chunk::from_fn(move |c| if cells.contains(&c) { Block::Sand } else { Block::Air })
}

#[test]
fn new_air_is_all_air() {
    let chunk = Chunk::new_air();
    assert_eq!(chunk.iter().len(), 32768);
    assert!(chunk.iter().iter().all(|b| *b == Block::Air));
}

#[test]
fn block_properties() {
    assert!(Block::Sand.is_solid());
    assert!(!Block::Air.is_solid());
    assert_eq!(Block::Sand.color(), rgba8(244, 164, 96, 255));
    assert_eq!(Block::Air.color(), rgba8(0, 0, 0, 0));
    assert_eq!(Block::Air.code(), 1);
    assert_eq!(Block::Sand.code(), 2);
}

#[test]
fn from_fn_reads_back() {
    let chunk = Chunk::from_fn(|c| if c.x == 3 && c.y == 4 && c.z == 5 { Block::Sand } else { Block::Air });
    assert_eq!(chunk.get_block(ivec3(3, 4, 5)), Block::Sand);
    assert_eq!(chunk.get_block(ivec3(3, 4, 6)), Block::Air);
    assert_eq!(chunk.try_get_block(ivec3(3, 4, 5)), Some(Block::Sand));
    assert_eq!(chunk.iter()[3 * 1024 + 4 * 32 + 5], Block::Sand);
}

#[test]
fn from_fn_calls_in_storage_order() {
    let seen = std::cell::RefCell::new(Vec::new());
    let _chunk = Chunk::from_fn(|c| {
        seen.borrow_mut().push(c);
        Block::Air
    });
    let seen = seen.into_inner();
    assert_eq!(seen.len(), 32768);
    assert_eq!(seen[0], ivec3(0, 0, 0));
    assert_eq!(seen[1], ivec3(0, 0, 1));
    assert_eq!(seen[32], ivec3(0, 1, 0));
    assert_eq!(seen[1024], ivec3(1, 0, 0));
    assert_eq!(seen[32767], ivec3(31, 31, 31));
}

#[test]
fn try_get_block_outside_is_none() {
    let chunk = chunk_with(&[ivec3(0, 0, 0)]);
    assert_eq!(chunk.try_get_block(ivec3(-1, 0, 0)), None);
    assert_eq!(chunk.try_get_block(ivec3(0, 32, 0)), None);
    assert_eq!(chunk.try_get_block(ivec3(0, 0, 32)), None);
    assert_eq!(chunk.try_get_block(ivec3(31, 31, 31)), Some(Block::Air));
    assert_eq!(chunk.try_get_block(ivec3(0, 0, 0)), Some(Block::Sand));
}

#[test]
fn get_block_reads_storage_position() {
    // (0, -1, 40) names storage position -32 + 40 = 8, the cell (0, 0, 8)
    let chunk = chunk_with(&[ivec3(0, 0, 8)]);
    assert_eq!(chunk.get_block(ivec3(0, -1, 40)), Block::Sand);
    assert_eq!(chunk.try_get_block(ivec3(0, -1, 40)), None);
}

#[test]
fn iter_indexed_pairs_cells_with_blocks() {
    let chunk = chunk_with(&[ivec3(1, 2, 3)]);
    let pairs = chunk.iter_indexed();
    assert_eq!(pairs.len(), 32768);
    let idx = 1 * 1024 + 2 * 32 + 3;
    assert_eq!(pairs[idx], (ivec3(1, 2, 3), Block::Sand));
    assert_eq!(pairs[idx + 1], (ivec3(1, 2, 4), Block::Air));
    for (i, (c, _)) in pairs.iter().enumerate() {
        assert_eq!((c.x * 1024 + c.y * 32 + c.z) as usize, i);
    }
}

#[test]
fn chunk_clone_keeps_blocks() {
    let chunk = chunk_with(&[ivec3(7, 7, 7)]);
    let copy = chunk.clone();
    assert_eq!(copy.iter(), chunk.iter());
}

#[test]
fn sand_pyramid_shape() {
    assert_eq!(sand_pyramid(ivec3(0, 0, 0)), Block::Sand);
    assert_eq!(sand_pyramid(ivec3(16, 16, 16)), Block::Sand);
    assert_eq!(sand_pyramid(ivec3(16, 16, 17)), Block::Air);
    assert_eq!(sand_pyramid(ivec3(3, 10, 3)), Block::Sand);
    assert_eq!(sand_pyramid(ivec3(3, 10, 4)), Block::Air);
    assert_eq!(sand_pyramid(ivec3(30, 20, 2)), Block::Sand);
    assert_eq!(sand_pyramid(ivec3(30, 20, 3)), Block::Air);
}

#[test]
fn air_chunk_has_empty_mesh() {
    let mesh = Chunk::new_air().to_mesh();
    assert!(mesh.vertexes.is_empty());
    assert!(mesh.indexes.is_empty());
}

#[test]
fn lone_block_has_six_faces() {
    let mesh = chunk_with(&[ivec3(5, 5, 5)]).to_mesh();
    assert_eq!(mesh.vertexes.len(), 24);
    assert_eq!(mesh.indexes.len(), 36);
    for v in &mesh.vertexes {
        assert_eq!(
            v.data,
            ChunkVertexData { color: rgba8(244, 164, 96, 255), corner_state: CornerState::NoCorner }
        );
        for (p, c) in [(v.position.x, 5), (v.position.y, 5), (v.position.z, 5)] {
            assert!(p == c || p == c + 1);
        }
    }
    // +X face first: unit-square corners land on (6,5,6), (6,5,5), (6,6,6), (6,6,5)
    let first: Vec<IVec3> = mesh.vertexes[0..4].iter().map(|v| v.position).collect();
    assert_eq!(first, vec![ivec3(6, 5, 6), ivec3(6, 5, 5), ivec3(6, 6, 6), ivec3(6, 6, 5)]);
    assert_eq!(mesh.vertexes[0].normal, ivec3(1, 0, 0));
    // -Z face last
    let last: Vec<IVec3> = mesh.vertexes[20..24].iter().map(|v| v.position).collect();
    assert_eq!(last, vec![ivec3(5, 6, 5), ivec3(6, 6, 5), ivec3(5, 5, 5), ivec3(6, 5, 5)]);
    assert_eq!(mesh.vertexes[20].normal, ivec3(0, 0, -1));
    let expected: Vec<u32> = (0..6u32)
        .flat_map(|q| [0u32, 1, 3, 3, 2, 0].into_iter().map(move |t| 4 * q + t))
        .collect();
    assert_eq!(mesh.indexes, expected);
}

#[test]
fn shared_face_is_culled() {
    let mesh = chunk_with(&[ivec3(5, 5, 5), ivec3(6, 5, 5)]).to_mesh();
    assert_eq!(mesh.vertexes.len(), 40);
    assert_eq!(mesh.indexes.len(), 60);
    assert!(mesh.indexes.iter().all(|i| (*i as usize) < mesh.vertexes.len()));
}

#[test]
fn faces_on_chunk_border_are_kept() {
    let mesh = chunk_with(&[ivec3(0, 0, 0)]).to_mesh();
    assert_eq!(mesh.vertexes.len(), 24);
}

#[test]
fn corner_occlusion_from_neighbours() {
    // B sits diagonally above A across A's +X edge of its top face.
    let mesh = chunk_with(&[ivec3(5, 5, 5), ivec3(6, 5, 6)]).to_mesh();
    // A's +Z face (its fifth visible face: +X, -X, +Y, -Y, +Z).
    let top: Vec<_> = mesh.vertexes[16..20].iter().map(|v| (v.position, v.data.corner_state)).collect();
    assert_eq!(
        top,
        vec![
            (ivec3(5, 5, 6), CornerState::NoCorner),
            (ivec3(6, 5, 6), CornerState::TwoFaces),
            (ivec3(5, 6, 6), CornerState::NoCorner),
            (ivec3(6, 6, 6), CornerState::TwoFaces),
        ]
    );
}

#[test]
fn corner_with_two_sides_meets_three_faces() {
    let mesh = chunk_with(&[ivec3(5, 5, 5), ivec3(6, 5, 6), ivec3(5, 6, 6)]).to_mesh();
    let top: Vec<_> = mesh.vertexes[16..20].iter().map(|v| (v.position, v.data.corner_state)).collect();
    assert_eq!(top[3], (ivec3(6, 6, 6), CornerState::ThreeFaces));
    assert_eq!(top[0], (ivec3(5, 5, 6), CornerState::NoCorner));
}

#[test]
fn pyramid_chunk_mesh_is_well_formed() {
    let mesh = Chunk::from_fn(sand_pyramid).to_mesh();
    assert_eq!(mesh.vertexes.len() % 4, 0);
    assert_eq!(mesh.indexes.len() * 4, mesh.vertexes.len() * 6);
    assert!(mesh.indexes.iter().all(|i| (*i as usize) < mesh.vertexes.len()));
}

fn cross(a: IVec3, b: IVec3, c: IVec3) -> IVec3 {
    let (ux, uy, uz) = (b.x - a.x, b.y - a.y, b.z - a.z);
    let (vx, vy, vz) = (c.x - a.x, c.y - a.y, c.z - a.z);
    ivec3(uy * vz - uz * vy, uz * vx - ux * vz, ux * vy - uy * vx)
}

#[test]
fn chunk_faces_wind_outward() {
    let mesh = Chunk::from_fn(sand_pyramid).to_mesh();
    for tri in mesh.indexes.chunks(3) {
        let [a, b, c] = [tri[0], tri[1], tri[2]].map(|i| &mesh.vertexes[i as usize]);
        assert_eq!(cross(a.position, b.position, c.position), a.normal);
        assert_eq!(a.normal, b.normal);
        assert_eq!(a.normal, c.normal);
    }
}

#[test]
fn try_get_block_agrees_with_get_block_inside() {
    let chunk = Chunk::from_fn(sand_pyramid);
    for x in 0..32 {
        for y in 0..32 {
            for z in 0..32 {
                let c = ivec3(x, y, z);
                assert_eq!(chunk.try_get_block(c), Some(chunk.get_block(c)));
                assert_eq!(chunk.get_block(c), sand_pyramid(c));
            }
        }
    }
}

#[test]
fn storage_position_names_cell() {
    let pairs = Chunk::new_air().iter_indexed();
    for (i, (c, _)) in pairs.iter().enumerate() {
        let i = i as i32;
        assert_eq!(*c, ivec3(i / 1024, (i / 32) % 32, i % 32));
    }
}

#[test]
fn cell_conversions_round_trip() {
    for idx in 0..32768usize {
        let p = Chunk::idx_to_cell_loc(idx);
        let i = idx as i32;
        assert_eq!(p, ivec3(i / 1024, (i / 32) % 32, i % 32));
        assert_eq!(Chunk::cell_loc_to_idx(p), idx);
    }
    for x in 0..32 {
        for y in 0..32 {
            for z in 0..32 {
                let p = ivec3(x, y, z);
                assert_eq!(Chunk::idx_to_cell_loc(Chunk::cell_loc_to_idx(p)), p);
            }
        }
    }
}
