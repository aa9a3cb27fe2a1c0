use assets::bundle::{align, checked_align, face_region_len, vertex_region_len, Mesh, Texture};

#[test]
fn align_rounds_up_to_256() {
    assert_eq!(align(0), 0);
    assert_eq!(align(1), 256);
    assert_eq!(align(255), 256);
    assert_eq!(align(256), 256);
    assert_eq!(align(257), 512);
    assert_eq!(align(36), 256);
}

#[test]
fn checked_align_reports_overflow() {
    assert_eq!(checked_align(usize::MAX), None);
    assert_eq!(checked_align(300), Some(512));
}

#[test]
fn region_lengths_for_one_triangle() {
    assert_eq!(vertex_region_len(3), Some(256 + 256 + 36));
    assert_eq!(face_region_len(1), Some(256 + 24));
    assert_eq!(vertex_region_len(usize::MAX), None);
}

#[test]
fn mesh_offsets_are_aligned_and_chained() {
    let v = 100usize;
    let f = 50usize;
    let vlen = vertex_region_len(v).unwrap();
    let flen = face_region_len(f).unwrap();
    let bytes = vec![0u8; vlen + flen];
    let m = Mesh::new(v, f, &bytes).unwrap();
    assert_eq!(m.vertex_count(), 100);
    assert_eq!(m.face_count(), 50);
    assert_eq!(m.positions_offset(), 0);
    assert_eq!(m.positions_size(), 1200);
    assert_eq!(m.tex_coords_offset(), 1280);
    assert_eq!(m.tex_coords_size(), 800);
    assert_eq!(m.normals_offset(), 2304);
    assert_eq!(m.normals_size(), 1200);
    assert_eq!(m.vertex_buffer_size(), 3504);
    assert_eq!(m.faces_offset(), 0);
    assert_eq!(m.faces_size(), 600);
    assert_eq!(m.solvers_offset(), 768);
    assert_eq!(m.solvers_size(), 1200);
    assert_eq!(m.face_buffer_size(), 1968);
    for off in [
        m.positions_offset(),
        m.tex_coords_offset(),
        m.normals_offset(),
        m.faces_offset(),
        m.solvers_offset(),
    ] {
        assert_eq!(off % 256, 0);
    }
    assert_eq!(m.tex_coords_offset(), align(m.positions_offset() + m.positions_size()));
    assert_eq!(m.normals_offset(), align(m.tex_coords_offset() + m.tex_coords_size()));
    assert_eq!(m.solvers_offset(), align(m.faces_offset() + m.faces_size()));
}

#[test]
fn mesh_regions_split_the_bytes() {
    let vlen = vertex_region_len(3).unwrap();
    let flen = face_region_len(1).unwrap();
    let mut bytes = vec![1u8; vlen];
    bytes.extend(vec![2u8; flen]);
    let m = Mesh::new(3, 1, &bytes).unwrap();
    assert_eq!(m.vertex_buffer_bytes().len(), 548);
    assert!(m.vertex_buffer_bytes().iter().all(|b| *b == 1));
    assert_eq!(m.face_buffer_bytes().len(), 280);
    assert!(m.face_buffer_bytes().iter().all(|b| *b == 2));
}

#[test]
fn mesh_rejects_wrong_length() {
    let bytes = vec![0u8; 827];
    assert!(Mesh::new(3, 1, &bytes).is_none());
    let bytes = vec![0u8; 829];
    assert!(Mesh::new(3, 1, &bytes).is_none());
    assert!(Mesh::new(usize::MAX, 1, &bytes).is_none());
}

#[test]
fn empty_mesh_has_empty_regions() {
    let bytes: Vec<u8> = Vec::new();
    let m = Mesh::new(0, 0, &bytes).unwrap();
    assert_eq!(m.vertex_buffer_size(), 0);
    assert_eq!(m.face_buffer_size(), 0);
}

#[test]
fn texture_accessors() {
    let bytes = vec![7u8; 12];
    let t = Texture::new(2, 2, &bytes);
    assert_eq!(t.width(), 2);
    assert_eq!(t.height(), 2);
    assert_eq!(t.bytes(), &bytes[..]);
}
