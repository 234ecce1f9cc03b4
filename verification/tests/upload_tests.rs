use lithia_powder::mesh::{unit_square, Mesh};
use lithia_powder::upload::{plan_mesh_upload, MeshBufferEntry};

#[test]
fn layout_of_three_meshes() {
    let a = unit_square();
    let mut b = unit_square();
    let mut extra = unit_square();
    b.append(&mut extra);
    let c: Mesh<_> = Mesh { vertexes: vec![unit_square().vertexes[0].clone()], indexes: vec![0, 0, 0] };
    let (entries, bytes) = plan_mesh_upload(&[a.clone(), b.clone(), c.clone()]);
    assert_eq!(
        entries,
        vec![
            MeshBufferEntry { first_index: 0, num_indices: 6, vertex_offset: 0 },
            MeshBufferEntry { first_index: 6, num_indices: 12, vertex_offset: 4 },
            MeshBufferEntry { first_index: 18, num_indices: 3, vertex_offset: 12 },
        ]
    );
    let expected: Vec<u8> = a
        .indexes
        .iter()
        .chain(b.indexes.iter())
        .chain(c.indexes.iter())
        .flat_map(|i| i.to_ne_bytes())
        .collect();
    assert_eq!(bytes, expected);
    assert_eq!(bytes.len(), 4 * 21);
}

#[test]
fn layout_of_no_meshes() {
    let meshes: Vec<Mesh<u8>> = vec![];
    let (entries, bytes) = plan_mesh_upload(&meshes);
    assert!(entries.is_empty());
    assert!(bytes.is_empty());
}

#[test]
fn index_bytes_keep_large_values() {
    let m: Mesh<u8> = Mesh { vertexes: vec![0], indexes: vec![0x0102_0304, 0xdead_beef] };
    let (_, bytes) = plan_mesh_upload(&[m]);
    let mut expected = 0x0102_0304u32.to_ne_bytes().to_vec();
    expected.extend(0xdead_beefu32.to_ne_bytes());
    assert_eq!(bytes, expected);
}

#[test]
fn entries_tile_the_buffers() {
    let meshes: Vec<_> = (0..5).map(|_| lithia_powder::mesh::floor()).collect();
    let (entries, bytes) = plan_mesh_upload(&meshes);
    assert_eq!(entries[0].first_index, 0);
    assert_eq!(entries[0].vertex_offset, 0);
    for k in 0..4 {
        assert_eq!(entries[k + 1].first_index, entries[k].first_index + entries[k].num_indices);
        assert_eq!(entries[k + 1].vertex_offset, entries[k].vertex_offset + 1600);
    }
    let last = entries[4];
    assert_eq!((last.first_index + last.num_indices) as usize * 4, bytes.len());
}
