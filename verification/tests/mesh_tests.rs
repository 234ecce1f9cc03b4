use lithia_powder::color::rgba8;
use lithia_powder::lattice::{ivec3, IVec3};
use lithia_powder::mesh::{cube_faces, floor, unit_square, Mesh, Vertex};

#[test]
fn unit_square_layout() {
    let sq = unit_square();
    let positions: Vec<IVec3> = sq.vertexes.iter().map(|v| v.position).collect();
    assert_eq!(positions, vec![ivec3(0, 0, 0), ivec3(1, 0, 0), ivec3(0, 1, 0), ivec3(1, 1, 0)]);
    assert!(sq.vertexes.iter().all(|v| v.normal == ivec3(0, 0, 1)));
    assert_eq!(sq.indexes, vec![0, 1, 3, 3, 2, 0]);
}

#[test]
fn append_shifts_other_indexes() {
    let mut a = unit_square();
    let mut b = unit_square();
    a.append(&mut b);
    assert_eq!(a.vertexes.len(), 8);
    assert_eq!(a.indexes, vec![0, 1, 3, 3, 2, 0, 4, 5, 7, 7, 6, 4]);
    assert!(b.vertexes.is_empty());
    assert!(b.indexes.is_empty());
}

#[test]
fn append_onto_empty_keeps_mesh() {
    let mut a: Mesh<Vertex<()>> = Mesh::new_empty();
    let mut b = unit_square();
    a.append(&mut b);
    assert_eq!(a.indexes, vec![0, 1, 3, 3, 2, 0]);
    assert_eq!(a.vertexes.len(), 4);
}

#[test]
fn append_keeps_triangle_corners() {
    let mut a = unit_square().map_data(|_| 1u8);
    let b = unit_square().map_data(|_| 2u8).map_positions(|p| ivec3(p.x + 5, p.y, p.z));
    let corners = |m: &Mesh<Vertex<u8>>| -> Vec<(IVec3, u8)> {
        m.indexes.iter().map(|i| (m.vertexes[*i as usize].position, m.vertexes[*i as usize].data)).collect()
    };
    let mut expected = corners(&a);
    expected.extend(corners(&b));
    let mut b = b;
    a.append(&mut b);
    assert_eq!(corners(&a), expected);
}

#[test]
fn map_data_keeps_geometry() {
    let m = unit_square().map_data(|_| rgba8(1, 2, 3, 4));
    assert!(m.vertexes.iter().all(|v| v.data == rgba8(1, 2, 3, 4)));
    assert_eq!(m.vertexes[3].position, ivec3(1, 1, 0));
    assert_eq!(m.indexes, vec![0, 1, 3, 3, 2, 0]);
}

#[test]
fn map_positions_keeps_data() {
    let m = unit_square().map_data(|_| 9u8).map_positions(|p| ivec3(p.x * 2, p.y * 3, p.z - 1));
    let positions: Vec<IVec3> = m.vertexes.iter().map(|v| v.position).collect();
    assert_eq!(positions, vec![ivec3(0, 0, -1), ivec3(2, 0, -1), ivec3(0, 3, -1), ivec3(2, 3, -1)]);
    assert!(m.vertexes.iter().all(|v| v.data == 9 && v.normal == ivec3(0, 0, 1)));
}

#[test]
fn map_vertexes_in_order() {
    let m = unit_square().map_vertexes(|v| v.position.x + 2 * v.position.y);
    assert_eq!(m.vertexes, vec![0, 1, 2, 3]);
    assert_eq!(m.indexes, vec![0, 1, 3, 3, 2, 0]);
}

#[test]
fn vertex_map_data() {
    let v = Vertex { position: ivec3(1, 2, 3), normal: ivec3(0, 1, 0), data: 7u32 };
    let w = v.map_data(|d| d * 2);
    assert_eq!(w.position, ivec3(1, 2, 3));
    assert_eq!(w.normal, ivec3(0, 1, 0));
    assert_eq!(w.data, 14);
}

#[test]
fn floor_is_a_checkerboard() {
    let f = floor();
    assert_eq!(f.vertexes.len(), 1600);
    assert_eq!(f.indexes.len(), 2400);
    let light = rgba8(180, 175, 165, 255);
    let dark = rgba8(145, 140, 125, 255);
    // first tile is (-10, -10): even sum, light
    assert_eq!(f.vertexes[0].position, ivec3(-10, -10, 0));
    assert_eq!(f.vertexes[3].position, ivec3(-9, -9, 0));
    assert_eq!(f.vertexes[0].data, light);
    // second tile is (-10, -9): odd sum, dark
    assert_eq!(f.vertexes[4].position, ivec3(-10, -9, 0));
    assert_eq!(f.vertexes[4].data, dark);
    // tile 20 is (-9, -10)
    assert_eq!(f.vertexes[80].position, ivec3(-9, -10, 0));
    assert_eq!(f.vertexes[80].data, dark);
    // last tile is (9, 9): even sum, light
    assert_eq!(f.vertexes[1599].position, ivec3(10, 10, 0));
    assert_eq!(f.vertexes[1596].data, light);
    assert_eq!(&f.indexes[6..12], &[4, 5, 7, 7, 6, 4]);
    assert!(f.indexes.iter().all(|i| (*i as usize) < 1600));
}

#[test]
fn unit_square_faces_up() {
    let sq = unit_square();
    for tri in sq.indexes.chunks(3) {
        let [a, b, c] = [tri[0], tri[1], tri[2]].map(|i| sq.vertexes[i as usize].position);
        let (ux, uy, uz) = (b.x - a.x, b.y - a.y, b.z - a.z);
        let (vx, vy, vz) = (c.x - a.x, c.y - a.y, c.z - a.z);
        assert_eq!((uy * vz - uz * vy, uz * vx - ux * vz, ux * vy - uy * vx), (0, 0, 1));
    }
}

#[test]
fn cube_faces_layout() {
    let cube = cube_faces();
    assert_eq!(cube.vertexes.len(), 24);
    assert_eq!(cube.indexes.len(), 36);
    let normals: Vec<IVec3> = cube.vertexes.iter().step_by(4).map(|v| v.normal).collect();
    assert_eq!(
        normals,
        vec![ivec3(0, 0, 1), ivec3(0, 0, -1), ivec3(1, 0, 0), ivec3(-1, 0, 0), ivec3(0, -1, 0), ivec3(0, 1, 0)]
    );
    for (n, v) in cube.vertexes.iter().enumerate() {
        assert_eq!(v.data as usize, n % 4);
        for p in [v.position.x, v.position.y, v.position.z] {
            assert!(p == 0 || p == 1);
        }
    }
    // -Z face: the +Z face turned half about y
    let minus_z: Vec<IVec3> = cube.vertexes[4..8].iter().map(|v| v.position).collect();
    assert_eq!(minus_z, vec![ivec3(1, 0, 0), ivec3(0, 0, 0), ivec3(1, 1, 0), ivec3(0, 1, 0)]);
    for tri in cube.indexes.chunks(3) {
        let [a, b, c] = [tri[0], tri[1], tri[2]].map(|i| &cube.vertexes[i as usize]);
        let (p, q, r) = (a.position, b.position, c.position);
        let (ux, uy, uz) = (q.x - p.x, q.y - p.y, q.z - p.z);
        let (vx, vy, vz) = (r.x - p.x, r.y - p.y, r.z - p.z);
        let n = ivec3(uy * vz - uz * vy, uz * vx - ux * vz, ux * vy - uy * vx);
        assert_eq!(n, a.normal);
    }
}

#[test]
fn map_data_takes_stateful_closures() {
    let mut i = 0u8;
    let m = unit_square().map_data(|_| {
        i += 1;
        i - 1
    });
    let data: Vec<u8> = m.vertexes.iter().map(|v| v.data).collect();
    assert_eq!(data, vec![0, 1, 2, 3]);
    let mut calls = 0;
    let m = m.map_positions(|p| {
        calls += 1;
        ivec3(p.x + calls, p.y, p.z)
    });
    assert_eq!(m.vertexes[3].position, ivec3(5, 1, 0));
    let mut seen = Vec::new();
    let m = m.map_vertexes(|v| {
        seen.push(v.data);
        v.data
    });
    assert_eq!(seen, vec![0, 1, 2, 3]);
    assert_eq!(m.vertexes, vec![0, 1, 2, 3]);
}
